use vstd::prelude::*;
use vstd::utf8::valid_utf8;
use crate::bytes::{cap, le, le_value, lemma_cap_values, lemma_le_round_trip, push_le, read_le};
use crate::error::CacheError;
use crate::strings::{
    OsString, enc_list, fits, lemma_list_round_trip, push_list, read_list, strings_view, take_list,
};
use crate::timestamp::{NANOS_PER_SEC, SystemTime};

verus! {

/// What an info record holds, as mathematical values.
pub struct RecordModel {
    pub command: Seq<Seq<u8>>,
    pub expiry: Option<SystemTime>,
    pub exit_code: i32,
}

/// The metadata kept for one cached run: the command, when the entry
/// expires (never, if absent) and the exit code of the run.
#[derive(Debug, Clone)]
pub struct CacheEntryInfo {
    pub command: Vec<OsString>,
    pub expiry: Option<SystemTime>,
    pub exit_code: i32,
}

impl View for CacheEntryInfo {
    type V = RecordModel;

    open spec fn view(&self) -> RecordModel {
        RecordModel { command: strings_view(self.command@), expiry: self.expiry, exit_code: self.exit_code }
    }
}

/// An entry is valid at `now` when it has no expiry or `now` lies strictly
/// before it.
pub open spec fn valid_at_spec(expiry: Option<SystemTime>, now: SystemTime) -> bool {
    match expiry {
        None => true,
        Some(t) => now.before(t),
    }
}

/// Validity against a clock reading: `None` stands for a clock before the
/// epoch, earlier than every expiry, so every entry is then valid.
pub open spec fn valid_on_clock(expiry: Option<SystemTime>, clock: Option<SystemTime>) -> bool {
    match clock {
        None => true,
        Some(t) => valid_at_spec(expiry, t),
    }
}

/// An entry is valid exactly when it has no expiry or the check time lies
/// strictly before the expiry; at the very moment of expiry it is no longer
/// valid.
pub proof fn lemma_validity(expiry: Option<SystemTime>, now: SystemTime)
    ensures
        valid_at_spec(expiry, now) <==> (expiry is None || now.before(expiry->Some_0)),
        expiry == Some(now) ==> !valid_at_spec(expiry, now),
{
}

/// The expiry: a presence byte, then seconds in 8 bytes and nanoseconds in 4.
pub open spec fn enc_expiry(e: Option<SystemTime>) -> Seq<u8> {
    match e {
        None => seq![0u8],
        Some(t) => seq![1u8] + le(t.secs as nat, 8) + le(t.nanos as nat, 4),
    }
}

/// The exit code as the unsigned number with the same 32 bits.
pub open spec fn code_bits(c: i32) -> nat {
    if c < 0 {
        (c + 0x1_0000_0000) as nat
    } else {
        c as nat
    }
}

/// The signed number whose 32 bits are the unsigned number `v`.
pub open spec fn code_of(v: nat) -> i32 {
    if v >= 0x8000_0000 {
        (v - 0x1_0000_0000) as i32
    } else {
        v as i32
    }
}

/// The bytes of the record: the command as a counted list of strings framed
/// by 4-byte lengths, the expiry, then the exit code in 4 bytes, all
/// little-endian.
pub open spec fn encoding(m: RecordModel) -> Seq<u8> {
    enc_list(m.command, 4) + enc_expiry(m.expiry) + le(code_bits(m.exit_code), 4)
}

/// The record format can hold `m`: counts and lengths fit 4 bytes, every
/// string is UTF-8 and the expiry is a well-formed time.
pub open spec fn recordable(m: RecordModel) -> bool {
    &&& fits(m.command, 4)
    &&& forall|i: int| 0 <= i < m.command.len() ==> valid_utf8(#[trigger] m.command[i])
    &&& match m.expiry {
        Some(t) => t.wf(),
        None => true,
    }
}

/// Reads an expiry from the front of `b`, with what follows.
pub open spec fn take_expiry(b: Seq<u8>) -> Option<(Option<SystemTime>, Seq<u8>)> {
    if b.len() < 1 {
        None
    } else if b[0] == 0 {
        Some((None, b.skip(1)))
    } else if b.len() < 13 {
        None
    } else {
        let secs = le_value(b.subrange(1, 9));
        let nanos = le_value(b.subrange(9, 13));
        if nanos >= NANOS_PER_SEC {
            None
        } else {
            Some((Some(SystemTime { secs: secs as u64, nanos: nanos as u32 }), b.skip(13)))
        }
    }
}

/// The record that the bytes `b` hold, if they hold one and nothing more.
pub open spec fn parse_record(b: Seq<u8>) -> Option<RecordModel> {
    match take_list(b, 4, true) {
        None => None,
        Some((c, r1)) => match take_expiry(r1) {
            None => None,
            Some((e, r2)) => if r2.len() != 4 {
                None
            } else {
                Some(RecordModel { command: c, expiry: e, exit_code: code_of(le_value(r2)) })
            },
        },
    }
}

/// Decoding the encoding of a record that the format can hold gives the
/// record back, field for field.
pub proof fn lemma_record_round_trip(m: RecordModel)
    requires
        recordable(m),
    ensures
        parse_record(encoding(m)) == Some(m),
{
    let tail = enc_expiry(m.expiry) + le(code_bits(m.exit_code), 4);
    let code = le(code_bits(m.exit_code), 4);
    assert(encoding(m) =~= enc_list(m.command, 4) + tail);
    lemma_list_round_trip(m.command, 4, true, tail);
    lemma_cap_values();
    lemma_le_round_trip(code_bits(m.exit_code), 4);
    match m.expiry {
        None => {
            assert(tail.skip(1) =~= code);
        },
        Some(t) => {
            lemma_le_round_trip(t.secs as nat, 8);
            lemma_le_round_trip(t.nanos as nat, 4);
            assert(tail.subrange(1, 9) =~= le(t.secs as nat, 8));
            assert(tail.subrange(9, 13) =~= le(t.nanos as nat, 4));
            assert(tail.skip(13) =~= code);
        },
    }
}

/// Writes the record's bytes, or fails where the format cannot hold it.
pub fn encode(info: &CacheEntryInfo) -> (r: Result<Vec<u8>, CacheError>)
    ensures
        match r {
            Ok(b) => recordable(info@) && b@ == encoding(info@),
            Err(e) => !recordable(info@) && e == CacheError::EncodingError,
        },
{
    let ghost m = info@;
    proof {
        lemma_cap_values();
    }
    if info.command.len() as u64 >= 0x1_0000_0000u64 {
        return Err(CacheError::EncodingError);
    }
    let mut i: usize = 0;
    while i < info.command.len()
        invariant
            0 <= i <= info.command@.len(),
            m == info@,
            cap(4) == 0x1_0000_0000,
            forall|j: int|
                0 <= j < i ==> #[trigger] m.command[j].len() < cap(4) && valid_utf8(m.command[j]),
        decreases info.command.len() - i,
    {
        let s = &info.command[i];
        assert(m.command[i as int] == s@);
        if s.bytes.len() as u64 >= 0x1_0000_0000u64 || !s.is_text() {
            return Err(CacheError::EncodingError);
        }
        i += 1;
    }
    assert(fits(m.command, 4));
    match info.expiry {
        Some(t) => if t.nanos >= NANOS_PER_SEC {
            return Err(CacheError::EncodingError);
        },
        None => {},
    }
    let mut out: Vec<u8> = Vec::new();
    push_list(&mut out, &info.command, 4);
    match info.expiry {
        None => {
            out.push(0u8);
        },
        Some(t) => {
            out.push(1u8);
            push_le(&mut out, t.secs, 8);
            push_le(&mut out, t.nanos as u64, 4);
        },
    }
    let bits: u64 = if info.exit_code < 0 {
        (info.exit_code as i64 + 0x1_0000_0000i64) as u64
    } else {
        info.exit_code as u64
    };
    push_le(&mut out, bits, 4);
    proof {
        assert(out@ =~= encoding(m));
    }
    Ok(out)
}

/// Reads a record from bytes that hold exactly one.
pub fn decode(b: &[u8]) -> (r: Result<CacheEntryInfo, CacheError>)
    ensures
        match r {
            Ok(info) => parse_record(b@) == Some(info@),
            Err(e) => parse_record(b@) is None && e == CacheError::CorruptRecord,
        },
{
    assert(b@.skip(0) =~= b@);
    let len = b.len();
    let (command, p) = match read_list(b, 0, 4, true) {
        None => return Err(CacheError::CorruptRecord),
        Some(x) => x,
    };
    let ghost r1 = b@.skip(p as int);
    if p >= len {
        return Err(CacheError::CorruptRecord);
    }
    let (expiry, q): (Option<SystemTime>, usize) = if b[p] == 0 {
        assert(r1.skip(1) =~= b@.skip(p + 1));
        (None, p + 1)
    } else {
        if len - p < 13 {
            return Err(CacheError::CorruptRecord);
        }
        let secs = read_le(b, p + 1, 8);
        let nanos = read_le(b, p + 9, 4);
        assert(r1.subrange(1, 9) =~= b@.subrange(p + 1, p + 9));
        assert(r1.subrange(9, 13) =~= b@.subrange(p + 9, p + 13));
        assert(r1.skip(13) =~= b@.skip(p + 13));
        if nanos >= NANOS_PER_SEC as u64 {
            return Err(CacheError::CorruptRecord);
        }
        (Some(SystemTime { secs, nanos: nanos as u32 }), p + 13)
    };
    if len - q != 4 {
        return Err(CacheError::CorruptRecord);
    }
    let v = read_le(b, q, 4);
    assert(b@.skip(q as int) =~= b@.subrange(q as int, q + 4));
    proof {
        crate::bytes::lemma_le_value_bound(b@.subrange(q as int, q + 4));
        lemma_cap_values();
    }
    let exit_code: i32 = if v >= 0x8000_0000u64 {
        (v as i64 - 0x1_0000_0000i64) as i32
    } else {
        v as i32
    };
    Ok(CacheEntryInfo { command, expiry, exit_code })
}

impl CacheEntryInfo {
    pub fn new(command: Vec<OsString>, expiry: Option<SystemTime>, exit_code: i32) -> (r:
        CacheEntryInfo)
        ensures
            r.command@ == command@,
            r.expiry == expiry,
            r.exit_code == exit_code,
    {
        CacheEntryInfo { command, expiry, exit_code }
    }

    /// Whether the entry is valid against a clock reading (`None`: the clock
    /// stands before the epoch).
    pub fn valid_on(&self, clock: &Option<SystemTime>) -> (r: bool)
        ensures
            r == valid_on_clock(self.expiry, *clock),
    {
        match clock {
            None => true,
            Some(now) => self.valid_at(now),
        }
    }

    /// Whether the entry is still valid at `now`.
    pub fn valid_at(&self, now: &SystemTime) -> (r: bool)
        ensures
            r == valid_at_spec(self.expiry, *now),
    {
        match &self.expiry {
            None => true,
            Some(t) => now.is_before(t),
        }
    }
}

} // verus!
