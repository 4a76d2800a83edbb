use vstd::prelude::*;
use vstd::utf8::valid_utf8;
use crate::bytes::{
    cap, le, le_value, lemma_cap_mono, lemma_cap_values, lemma_le_round_trip, push_le, read_le,
};

verus! {

/// A platform string: the raw bytes of a program name or an argument.
#[derive(Debug, Clone, PartialEq, Eq, Hash)]
pub struct OsString {
    pub bytes: Vec<u8>,
}

impl View for OsString {
    type V = Seq<u8>;

    open spec fn view(&self) -> Seq<u8> {
        self.bytes@
    }
}

/// Relies on std::str::from_utf8: it succeeds exactly on well-formed UTF-8.
#[verifier::external_body]
fn utf8_check(b: &[u8]) -> (r: bool)
    ensures
        r == valid_utf8(b@),
{
    std::str::from_utf8(b).is_ok()
}

impl OsString {
    pub fn from_bytes(bytes: Vec<u8>) -> (r: OsString)
        ensures
            r@ == bytes@,
    {
        OsString { bytes }
    }

    pub fn as_bytes(&self) -> (r: &[u8])
        ensures
            r@ == self@,
    {
        self.bytes.as_slice()
    }

    /// Whether the bytes are UTF-8 text, which the info record can hold.
    pub fn is_text(&self) -> (r: bool)
        ensures
            r == valid_utf8(self@),
    {
        utf8_check(self.bytes.as_slice())
    }
}

/// The byte strings that a sequence of platform strings holds.
pub open spec fn strings_view(c: Seq<OsString>) -> Seq<Seq<u8>> {
    Seq::new(c.len(), |i: int| c[i]@)
}

/// One string framed by its length in `w` bytes.
pub open spec fn enc_str(s: Seq<u8>, w: nat) -> Seq<u8> {
    le(s.len(), w) + s
}

/// The strings framed one after another.
pub open spec fn enc_strs(c: Seq<Seq<u8>>, w: nat) -> Seq<u8>
    decreases c.len(),
{
    if c.len() == 0 {
        seq![]
    } else {
        enc_str(c[0], w) + enc_strs(c.drop_first(), w)
    }
}

/// The count of strings in `w` bytes, then each string framed.
pub open spec fn enc_list(c: Seq<Seq<u8>>, w: nat) -> Seq<u8> {
    le(c.len(), w) + enc_strs(c, w)
}

/// Every count and length in `c` fits `w` bytes.
pub open spec fn fits(c: Seq<Seq<u8>>, w: nat) -> bool {
    c.len() < cap(w) && forall|i: int| 0 <= i < c.len() ==> #[trigger] c[i].len() < cap(w)
}

/// Reads a number from the first `w` bytes of `b`, with what follows.
pub open spec fn take_le(b: Seq<u8>, w: nat) -> Option<(nat, Seq<u8>)> {
    if b.len() < w {
        None
    } else {
        Some((le_value(b.take(w as int)), b.skip(w as int)))
    }
}

/// Reads one framed string from the front of `b`, with what follows.
pub open spec fn take_str(b: Seq<u8>, w: nat) -> Option<(Seq<u8>, Seq<u8>)> {
    match take_le(b, w) {
        None => None,
        Some((n, r)) => if r.len() < n {
            None
        } else {
            Some((r.take(n as int), r.skip(n as int)))
        },
    }
}

/// Reads `n` framed strings from the front of `b`; with `text`, each must be
/// UTF-8.
pub open spec fn take_strs(b: Seq<u8>, n: nat, w: nat, text: bool) -> Option<
    (Seq<Seq<u8>>, Seq<u8>),
>
    decreases n,
{
    if n == 0 {
        Some((seq![], b))
    } else {
        match take_str(b, w) {
            None => None,
            Some((s, r)) => if text && !valid_utf8(s) {
                None
            } else {
                match take_strs(r, (n - 1) as nat, w, text) {
                    None => None,
                    Some((ss, r2)) => Some((seq![s] + ss, r2)),
                }
            },
        }
    }
}

/// Reads a counted list of framed strings from the front of `b`.
pub open spec fn take_list(b: Seq<u8>, w: nat, text: bool) -> Option<(Seq<Seq<u8>>, Seq<u8>)> {
    match take_le(b, w) {
        None => None,
        Some((n, r)) => take_strs(r, n, w, text),
    }
}

pub proof fn lemma_take_le(n: nat, w: nat, rest: Seq<u8>)
    requires
        n < cap(w),
    ensures
        take_le(le(n, w) + rest, w) == Some((n, rest)),
{
    lemma_le_round_trip(n, w);
    assert((le(n, w) + rest).take(w as int) =~= le(n, w));
    assert((le(n, w) + rest).skip(w as int) =~= rest);
}

pub proof fn lemma_strs_round_trip(c: Seq<Seq<u8>>, w: nat, text: bool, rest: Seq<u8>)
    requires
        fits(c, w),
        text ==> forall|i: int| 0 <= i < c.len() ==> valid_utf8(#[trigger] c[i]),
    ensures
        take_strs(enc_strs(c, w) + rest, c.len(), w, text) == Some((c, rest)),
    decreases c.len(),
{
    if c.len() > 0 {
        let t = c.drop_first();
        assert(fits(t, w)) by {
            assert forall|i: int| 0 <= i < t.len() implies #[trigger] t[i].len() < cap(w) by {
                assert(t[i] == c[i + 1]);
            }
        }
        assert(text ==> forall|i: int| 0 <= i < t.len() ==> valid_utf8(#[trigger] t[i])) by {
            assert forall|i: int| text && 0 <= i < t.len() implies valid_utf8(#[trigger] t[i]) by {
                assert(t[i] == c[i + 1]);
            }
        }
        lemma_strs_round_trip(t, w, text, rest);
        let tail = enc_strs(t, w) + rest;
        let b = enc_strs(c, w) + rest;
        assert(b =~= le(c[0].len(), w) + (c[0] + tail));
        assert(c[0].len() < cap(w));
        lemma_take_le(c[0].len(), w, c[0] + tail);
        assert((c[0] + tail).take(c[0].len() as int) =~= c[0]);
        assert((c[0] + tail).skip(c[0].len() as int) =~= tail);
        assert(seq![c[0]] + t =~= c);
    }
}

/// A counted list of framed strings reads back as the strings it frames.
pub proof fn lemma_list_round_trip(c: Seq<Seq<u8>>, w: nat, text: bool, rest: Seq<u8>)
    requires
        fits(c, w),
        text ==> forall|i: int| 0 <= i < c.len() ==> valid_utf8(#[trigger] c[i]),
    ensures
        take_list(enc_list(c, w) + rest, w, text) == Some((c, rest)),
{
    let b = enc_list(c, w) + rest;
    assert(b =~= le(c.len(), w) + (enc_strs(c, w) + rest));
    lemma_take_le(c.len(), w, enc_strs(c, w) + rest);
    lemma_strs_round_trip(c, w, text, rest);
}

/// Framing one more string extends the framing by that string alone.
pub proof fn lemma_enc_strs_push(c: Seq<Seq<u8>>, s: Seq<u8>, w: nat)
    ensures
        enc_strs(c.push(s), w) == enc_strs(c, w) + enc_str(s, w),
    decreases c.len(),
{
    if c.len() == 0 {
        let e: Seq<Seq<u8>> = seq![];
        assert(c.push(s).drop_first() =~= e);
        assert(c.push(s)[0] == s);
        assert(enc_strs(e, w) == Seq::<u8>::empty());
        assert(enc_strs(c.push(s), w) =~= enc_str(s, w) + enc_strs(e, w));
        assert(enc_strs(c.push(s), w) =~= enc_strs(c, w) + enc_str(s, w));
    } else {
        assert(c.push(s).drop_first() =~= c.drop_first().push(s));
        lemma_enc_strs_push(c.drop_first(), s, w);
        assert(enc_strs(c.push(s), w) =~= enc_strs(c, w) + enc_str(s, w));
    }
}

/// Appends `b[from..to]` to `out`.
pub fn push_bytes(out: &mut Vec<u8>, b: &[u8], from: usize, to: usize)
    requires
        from <= to <= b@.len(),
    ensures
        final(out)@ == old(out)@ + b@.subrange(from as int, to as int),
{
    let ghost o = out@;
    let mut i: usize = from;
    while i < to
        invariant
            from <= i <= to <= b@.len(),
            out@ == o + b@.subrange(from as int, i as int),
        decreases to - i,
    {
        out.push(b[i]);
        assert(b@.subrange(from as int, i + 1) =~= b@.subrange(from as int, i as int).push(b@[i as int]));
        i += 1;
    }
}

/// Appends the count of `c` in `w` bytes, then each string framed by its
/// length in `w` bytes.
pub fn push_list(out: &mut Vec<u8>, c: &Vec<OsString>, w: usize)
    requires
        fits(strings_view(c@), w as nat),
    ensures
        final(out)@ == old(out)@ + enc_list(strings_view(c@), w as nat),
{
    let ghost o = out@;
    let ghost v = strings_view(c@);
    push_le(out, c.len() as u64, w);
    let ghost start = out@;
    let mut i: usize = 0;
    while i < c.len()
        invariant
            0 <= i <= c@.len(),
            v == strings_view(c@),
            start == o + le(v.len(), w as nat),
            out@ == start + enc_strs(v.take(i as int), w as nat),
        decreases c.len() - i,
    {
        let s = &c[i];
        let ghost before = out@;
        push_le(out, s.bytes.len() as u64, w);
        let sb = s.bytes.as_slice();
        push_bytes(out, sb, 0, sb.len());
        proof {
            assert(sb@.subrange(0, sb@.len() as int) =~= v[i as int]);
            assert(v.take(i + 1) =~= v.take(i as int).push(v[i as int]));
            lemma_enc_strs_push(v.take(i as int), v[i as int], w as nat);
            assert(out@ =~= start + enc_strs(v.take(i + 1), w as nat));
        }
        i += 1;
    }
    proof {
        assert(v.take(c@.len() as int) =~= v);
        assert(out@ =~= o + enc_list(v, w as nat));
    }
}

/// Reads a counted list of framed strings that starts at `b[pos]`, with its
/// counts and lengths in `w` bytes; with `text`, each string must be UTF-8.
/// Gives the strings and the position after them.
pub fn read_list(b: &[u8], pos: usize, w: usize, text: bool) -> (r: Option<(Vec<OsString>, usize)>)
    requires
        pos <= b@.len(),
        w <= 8,
    ensures
        match r {
            Some((c, p)) => pos <= p <= b@.len() && take_list(b@.skip(pos as int), w as nat, text)
                == Some((strings_view(c@), b@.skip(p as int))),
            None => take_list(b@.skip(pos as int), w as nat, text) is None,
        },
{
    let len = b.len();
    if len - pos < w {
        return None;
    }
    let n = read_le(b, pos, w);
    assert(b@.skip(pos as int).take(w as int) =~= b@.subrange(pos as int, pos + w));
    assert(b@.skip(pos as int).skip(w as int) =~= b@.skip(pos + w));
    let ghost full = take_strs(b@.skip(pos + w), n as nat, w as nat, text);
    assert(take_le(b@.skip(pos as int), w as nat) == Some((n as nat, b@.skip(pos + w))));
    assert(take_list(b@.skip(pos as int), w as nat, text) == full);
    let mut cur: usize = pos + w;
    let mut k: u64 = 0;
    let mut acc: Vec<OsString> = Vec::new();
    while k < n
        invariant
            pos + w <= cur <= len,
            len == b@.len(),
            w <= 8,
            k <= n,
            full == take_list(b@.skip(pos as int), w as nat, text),
            full == match take_strs(b@.skip(cur as int), (n - k) as nat, w as nat, text) {
                None => None,
                Some((ss, rr)) => Some((strings_view(acc@) + ss, rr)),
            },
        decreases n - k,
    {
        let ghost rest = b@.skip(cur as int);
        if len - cur < w {
            assert(take_str(rest, w as nat) is None);
            assert(take_strs(rest, (n - k) as nat, w as nat, text) is None);
            return None;
        }
        let l = read_le(b, cur, w);
        assert(rest.take(w as int) =~= b@.subrange(cur as int, cur + w));
        assert(rest.skip(w as int) =~= b@.skip(cur + w));
        if ((len - cur - w) as u64) < l {
            assert(take_str(rest, w as nat) is None);
            assert(take_strs(rest, (n - k) as nat, w as nat, text) is None);
            return None;
        }
        let e: usize = cur + w + l as usize;
        let piece = &b[cur + w..e];
        assert(b@.skip(cur + w).take(l as int) =~= piece@);
        assert(b@.skip(cur + w).skip(l as int) =~= b@.skip(e as int));
        if text && !utf8_check(piece) {
            assert(take_str(rest, w as nat) == Some((piece@, b@.skip(e as int))));
            assert(take_strs(rest, (n - k) as nat, w as nat, text) is None);
            return None;
        }
        assert(take_str(rest, w as nat) == Some((piece@, b@.skip(e as int))));
        let mut bytes: Vec<u8> = Vec::new();
        push_bytes(&mut bytes, piece, 0, piece.len());
        assert(bytes@ =~= piece@);
        let ghost old_acc = acc@;
        acc.push(OsString { bytes });
        proof {
            assert(strings_view(acc@) =~= strings_view(old_acc).push(piece@));
            match take_strs(b@.skip(e as int), (n - k - 1) as nat, w as nat, text) {
                None => {},
                Some((ss, rr)) => {
                    assert(strings_view(old_acc) + (seq![piece@] + ss) =~= strings_view(acc@)
                        + ss);
                },
            }
        }
        cur = e;
        k = k + 1;
    }
    proof {
        assert(strings_view(acc@) + Seq::<Seq<u8>>::empty() =~= strings_view(acc@));
    }
    Some((acc, cur))
}

} // verus!
