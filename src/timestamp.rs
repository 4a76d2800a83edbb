use vstd::prelude::*;
use vstd::string::StringSliceAdditionalSpecFns;

verus! {

/// Nanoseconds in one second.
pub const NANOS_PER_SEC: u32 = 1_000_000_000;

/// A point in time, as seconds and nanoseconds since the Unix epoch.
#[derive(Debug, Clone, Copy, PartialEq, Eq, Hash)]
pub struct SystemTime {
    pub secs: u64,
    pub nanos: u32,
}

impl SystemTime {
    /// The nanosecond part stays below one second.
    pub open spec fn wf(self) -> bool {
        self.nanos < NANOS_PER_SEC
    }

    /// Nanoseconds since the epoch, as one number.
    pub open spec fn total_nanos(self) -> int {
        self.secs as int * NANOS_PER_SEC as int + self.nanos as int
    }

    /// `self` lies strictly before `other`.
    pub open spec fn before(self, other: SystemTime) -> bool {
        self.secs < other.secs || (self.secs == other.secs && self.nanos < other.nanos)
    }

    pub fn new(secs: u64, nanos: u32) -> (r: SystemTime)
        requires
            nanos < NANOS_PER_SEC,
        ensures
            r.secs == secs,
            r.nanos == nanos,
            r.wf(),
    {
        SystemTime { secs, nanos }
    }

    /// Whether `self` lies strictly before `other`.
    pub fn is_before(&self, other: &SystemTime) -> (r: bool)
        ensures
            r == self.before(*other),
    {
        self.secs < other.secs || (self.secs == other.secs && self.nanos < other.nanos)
    }

    /// The point `secs` seconds and `nanos` nanoseconds after `self`, or `None`
    /// where it cannot be held.
    pub fn checked_add(&self, secs: u64, nanos: u32) -> (r: Option<SystemTime>)
        requires
            self.wf(),
            nanos < NANOS_PER_SEC,
        ensures
            match r {
                Some(t) => t.wf() && t.total_nanos() == self.total_nanos() + secs as int
                    * NANOS_PER_SEC as int + nanos as int,
                None => self.secs as int + secs as int + (if self.nanos as int + nanos as int
                    >= NANOS_PER_SEC as int { 1int } else { 0int }) > u64::MAX as int,
            },
    {
        let n: u32 = self.nanos + nanos;
        let (carry, n): (u64, u32) = if n >= NANOS_PER_SEC {
            (1, n - NANOS_PER_SEC)
        } else {
            (0, n)
        };
        match self.secs.checked_add(secs) {
            None => None,
            Some(s) => match s.checked_add(carry) {
                None => None,
                Some(s2) => Some(SystemTime { secs: s2, nanos: n }),
            },
        }
    }
}

/// The point in time that humantime's weak RFC 3339 reading finds in `s`.
pub uninterp spec fn rfc3339_weak_of(s: Seq<char>) -> Option<(u64, u32)>;

/// The strict RFC 3339 text that humantime writes for a time.
pub uninterp spec fn rfc3339_text_of(secs: u64, nanos: u32) -> Seq<char>;

/// The first second of the year 10000, from which on humantime writes no text.
pub const RFC3339_END: u64 = 253_402_300_800;

/// Relies on humantime::format_rfc3339: the text depends on the time alone;
/// times from the year 10000 on make its formatting fail, so they are left out.
#[verifier::external_body]
fn format_rfc3339(secs: u64, nanos: u32) -> (r: String)
    requires
        secs < RFC3339_END,
        nanos < NANOS_PER_SEC,
    ensures
        r@ == rfc3339_text_of(secs, nanos),
{
    humantime::format_rfc3339(std::time::UNIX_EPOCH + std::time::Duration::new(secs, nanos)).to_string()
}

/// The span, as seconds and nanoseconds, that humantime reads from `s`.
pub uninterp spec fn duration_of(s: Seq<char>) -> Option<(u64, u32)>;

/// Relies on humantime::parse_rfc3339_weak: the result depends on the text
/// alone, and every time it gives lies at or after the epoch.
#[verifier::external_body]
fn parse_rfc3339_weak(s: &str) -> (r: Option<(u64, u32)>)
    ensures
        r == rfc3339_weak_of(s@),
        r matches Some(t) ==> t.1 < NANOS_PER_SEC,
{
    match humantime::parse_rfc3339_weak(s) {
        Ok(t) => match t.duration_since(std::time::UNIX_EPOCH) {
            Ok(d) => Some((d.as_secs(), d.subsec_nanos())),
            Err(_) => None,
        },
        Err(_) => None,
    }
}

/// The number of ASCII digits among the bytes `b`.
pub open spec fn ascii_digits(b: Seq<u8>) -> nat
    decreases b.len(),
{
    if b.len() == 0 {
        0
    } else {
        ascii_digits(b.drop_last()) + if 48 <= b.last() <= 57 {
            1nat
        } else {
            0nat
        }
    }
}

/// The most digits a span's text may hold. With at most eleven digits every
/// unit together stays below 10^11 + 22 years of 31,557,600 seconds, far
/// below `u64::MAX` seconds, so humantime never builds a `Duration` whose
/// seconds overflow.
pub const DURATION_MAX_DIGITS: usize = 11;

/// Relies on humantime::parse_duration: the result depends on the text
/// alone, and a std Duration keeps its nanoseconds below one second. It
/// panics where a carry of nanoseconds pushes the seconds past `u64::MAX`,
/// which needs more digits than `requires` admits.
#[verifier::external_body]
fn parse_duration(s: &str) -> (r: Option<(u64, u32)>)
    requires
        ascii_digits(s.spec_bytes()) <= DURATION_MAX_DIGITS,
    ensures
        r == duration_of(s@),
        r matches Some(d) ==> d.1 < NANOS_PER_SEC,
{
    match humantime::parse_duration(s) {
        Ok(d) => Some((d.as_secs(), d.subsec_nanos())),
        Err(_) => None,
    }
}

/// Relies on std::time::SystemTime::now: the clock, read as time since the
/// epoch; `None` where the clock stands before the epoch.
#[verifier::external_body]
fn clock() -> (r: Option<SystemTime>)
    ensures
        r matches Some(t) ==> t.wf(),
{
    match std::time::SystemTime::now().duration_since(std::time::UNIX_EPOCH) {
        Ok(d) => Some(SystemTime { secs: d.as_secs(), nanos: d.subsec_nanos() }),
        Err(_) => None,
    }
}

impl SystemTime {
    /// Reads a date-time in the weak RFC 3339 form (`2018-02-14 00:28:07`,
    /// with or without `T`, `Z` or `+00:00`), taken as UTC.
    pub fn from_rfc3339(s: &str) -> (r: Option<SystemTime>)
        ensures
            match rfc3339_weak_of(s@) {
                Some((secs, nanos)) => r == Some(SystemTime { secs, nanos }),
                None => r is None,
            },
            r matches Some(t) ==> t.wf(),
    {
        match parse_rfc3339_weak(s) {
            Some((secs, nanos)) => Some(SystemTime { secs, nanos }),
            None => None,
        }
    }

    /// The time in strict RFC 3339 form, such as `2018-02-14T00:28:07Z`.
    pub fn to_rfc3339(&self) -> (r: String)
        requires
            self.wf(),
            self.secs < RFC3339_END,
        ensures
            r@ == rfc3339_text_of(self.secs, self.nanos),
    {
        format_rfc3339(self.secs, self.nanos)
    }

    /// The time now, or `None` where the clock stands before the epoch.
    pub fn now() -> (r: Option<SystemTime>)
        ensures
            r matches Some(t) ==> t.wf(),
    {
        clock()
    }
}

/// Reads a span such as `2h 37min` or `0s` as seconds and nanoseconds. Text
/// with more than `DURATION_MAX_DIGITS` digits is refused.
pub fn read_duration(s: &str) -> (r: Option<(u64, u32)>)
    ensures
        ascii_digits(s.spec_bytes()) > DURATION_MAX_DIGITS ==> r is None,
        ascii_digits(s.spec_bytes()) <= DURATION_MAX_DIGITS ==> r == duration_of(s@),
        r matches Some(d) ==> d.1 < NANOS_PER_SEC,
{
    let b = s.as_bytes();
    let mut count: usize = 0;
    let mut i: usize = 0;
    while i < b.len()
        invariant
            0 <= i <= b@.len(),
            b@ == s.spec_bytes(),
            count == ascii_digits(b@.take(i as int)),
            count <= i,
        decreases b.len() - i,
    {
        assert(b@.take(i + 1).drop_last() =~= b@.take(i as int));
        if 48 <= b[i] && b[i] <= 57 {
            count = count + 1;
        }
        i = i + 1;
    }
    assert(b@.take(b@.len() as int) =~= b@);
    if count > DURATION_MAX_DIGITS {
        None
    } else {
        parse_duration(s)
    }
}

} // verus!
