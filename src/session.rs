use vstd::prelude::*;
use crate::error::CacheError;
use crate::record::{CacheEntryInfo, valid_at_spec, valid_on_clock};
use crate::strings::OsString;
use crate::timestamp::{NANOS_PER_SEC, SystemTime};

verus! {

/// What to do with a command once its entry has been looked up.
#[derive(Debug, Clone, Copy, PartialEq, Eq, Structural)]
pub enum Lookup {
    /// A valid entry exists: replay its output and exit code.
    Replay,
    /// An expired entry exists: remove it, then run the command.
    Refresh,
    /// No entry exists: run the command.
    Run,
}

/// Decides between replaying and running, from the info record read (if any)
/// and a reading of the clock (`None`: it stands before the epoch).
pub fn lookup(found: Option<&CacheEntryInfo>, clock: &Option<SystemTime>) -> (r: Lookup)
    ensures
        match found {
            None => r == Lookup::Run,
            Some(info) => if valid_on_clock(info.expiry, *clock) {
                r == Lookup::Replay
            } else {
                r == Lookup::Refresh
            },
        },
{
    match found {
        None => Lookup::Run,
        Some(info) => if info.valid_on(clock) {
            Lookup::Replay
        } else {
            Lookup::Refresh
        },
    }
}

/// The word that reports an entry's state against a clock reading.
pub fn status_word(info: &CacheEntryInfo, clock: &Option<SystemTime>) -> (r: &'static str)
    ensures
        valid_on_clock(info.expiry, *clock) ==> r@ == "valid"@,
        !valid_on_clock(info.expiry, *clock) ==> r@ == "expired"@,
{
    if info.valid_on(clock) {
        "valid"
    } else {
        "expired"
    }
}

/// The expiry of a new entry: the one given, else `duration` after `now`,
/// else none.
pub fn resolve_expiry(expiry: Option<SystemTime>, duration: Option<(u64, u32)>, now: &SystemTime) -> (r:
    Option<SystemTime>)
    requires
        now.wf(),
        duration matches Some(d) ==> d.1 < NANOS_PER_SEC && now.secs + d.0 + (if now.nanos + d.1
            >= NANOS_PER_SEC {
            1int
        } else {
            0int
        }) <= u64::MAX,
    ensures
        match (expiry, duration) {
            (Some(e), _) => r == Some(e),
            (None, None) => r is None,
            (None, Some(d)) => r matches Some(t) && t.wf() && t.total_nanos() == now.total_nanos()
                + d.0 * NANOS_PER_SEC + d.1,
        },
{
    match expiry {
        Some(e) => Some(e),
        None => match duration {
            None => None,
            Some(d) => now.checked_add(d.0, d.1),
        },
    }
}

/// An entry made with a zero duration expires at the moment it is made: the
/// expiry that `resolve_expiry` gives for a zero duration equals the time of
/// making, so at any check time from then on the
/// entry is not valid.
pub proof fn lemma_zero_duration_expired(made: SystemTime, expiry: SystemTime, check: SystemTime)
    requires
        made.wf(),
        expiry.wf(),
        expiry.total_nanos() == made.total_nanos(),
        !check.before(made),
    ensures
        expiry == made,
        !valid_at_spec(Some(expiry), check),
{
    let n = NANOS_PER_SEC as int;
    let (a, b, c, d) = (expiry.secs as int, expiry.nanos as int, made.secs as int, made.nanos as int);
    assert(a == c && b == d) by (nonlinear_arith)
        requires
            a * n + b == c * n + d,
            0 <= b < n,
            0 <= d < n,
            n == 1_000_000_000,
            a >= 0,
            c >= 0,
    ;
}

/// One thing that the relay loop sees: a read of one of the child's streams
/// (a read of nothing means the stream has closed), or a round in which
/// neither stream had anything.
#[derive(Debug, Clone, Copy, PartialEq, Eq, Structural)]
pub enum RelayEvent {
    Stdout(usize),
    Stderr(usize),
    Quiet,
}

/// The relay loop's knowledge of the child's two output streams.
#[derive(Debug, Clone, Copy, PartialEq, Eq, Structural)]
pub struct Relay {
    pub stdout_open: bool,
    pub stderr_open: bool,
}

impl Relay {
    /// Before the first read both streams are open.
    pub fn new() -> (r: Relay)
        ensures
            r.stdout_open && r.stderr_open,
    {
        Relay { stdout_open: true, stderr_open: true }
    }

    /// Takes in one event, and says whether the child's status should now be
    /// asked for: only once both streams have closed and the event brought no
    /// bytes, since a quiet stream says nothing of the other. The loop ends
    /// when that answer is yes and the child has ended.
    pub fn observe(&mut self, event: RelayEvent) -> (poll: bool)
        ensures
            final(self).stdout_open == (old(self).stdout_open && event != RelayEvent::Stdout(0)),
            final(self).stderr_open == (old(self).stderr_open && event != RelayEvent::Stderr(0)),
            poll == (!final(self).stdout_open && !final(self).stderr_open && match event {
                RelayEvent::Stdout(n) => n == 0,
                RelayEvent::Stderr(n) => n == 0,
                RelayEvent::Quiet => true,
            }),
    {
        let quiet = match event {
            RelayEvent::Stdout(n) => {
                if n == 0 {
                    self.stdout_open = false;
                }
                n == 0
            },
            RelayEvent::Stderr(n) => {
                if n == 0 {
                    self.stderr_open = false;
                }
                n == 0
            },
            RelayEvent::Quiet => true,
        };
        quiet && !self.stdout_open && !self.stderr_open
    }
}

/// What becomes of an entry once its command has ended.
pub enum Completion {
    /// The command ended with an exit code: record it.
    Record(CacheEntryInfo),
    /// The command ended without one (a signal): remove the captured output.
    Discard,
}

/// The record to write once the command has ended with `exit_code`, if it
/// ended with one.
pub fn complete(command: Vec<OsString>, expiry: Option<SystemTime>, exit_code: Option<i32>) -> (r:
    Completion)
    ensures
        match exit_code {
            Some(c) => r matches Completion::Record(info) && info.command@ == command@
                && info.expiry == expiry && info.exit_code == c,
            None => r is Discard,
        },
{
    match exit_code {
        Some(c) => Completion::Record(CacheEntryInfo::new(command, expiry, c)),
        None => Completion::Discard,
    }
}

/// Whether a file found in the cache directory is an info record: a plain
/// file whose name has no extension.
pub fn is_record_file(is_file: bool, has_extension: bool) -> (r: bool)
    ensures
        r == (is_file && !has_extension),
{
    is_file && !has_extension
}

/// Whether purging removes the entry with this record: it has expired
/// against the clock reading.
pub fn should_purge(info: &CacheEntryInfo, clock: &Option<SystemTime>) -> (r: bool)
    ensures
        r == !valid_on_clock(info.expiry, *clock),
{
    !info.valid_on(clock)
}

/// The error that a maintenance operation reports when the cache directory
/// cannot be opened or removed: the directory's absence gets its own.
pub fn directory_failure(not_found: bool) -> (r: Option<CacheError>)
    ensures
        not_found ==> r == Some(CacheError::CacheDirectoryNotFound),
        !not_found ==> r is None,
{
    if not_found {
        Some(CacheError::CacheDirectoryNotFound)
    } else {
        None
    }
}

} // verus!
