use vstd::prelude::*;

verus! {

/// `w` bytes holding `n` in little-endian order (the low `w` bytes of `n`).
pub open spec fn le(n: nat, w: nat) -> Seq<u8>
    decreases w,
{
    if w == 0 {
        seq![]
    } else {
        seq![(n % 256) as u8] + le(n / 256, (w - 1) as nat)
    }
}

/// The number that little-endian bytes `s` hold.
pub open spec fn le_value(s: Seq<u8>) -> nat
    decreases s.len(),
{
    if s.len() == 0 {
        0
    } else {
        s[0] as nat + 256 * le_value(s.drop_first())
    }
}

/// How many numbers `w` bytes can hold.
pub open spec fn cap(w: nat) -> nat
    decreases w,
{
    if w == 0 {
        1
    } else {
        256 * cap((w - 1) as nat)
    }
}

pub proof fn lemma_cap_positive(w: nat)
    ensures
        cap(w) >= 1,
    decreases w,
{
    if w > 0 {
        lemma_cap_positive((w - 1) as nat);
    }
}

pub proof fn lemma_cap_mono(a: nat, b: nat)
    requires
        a <= b,
    ensures
        cap(a) <= cap(b),
    decreases b,
{
    if a < b {
        lemma_cap_mono(a, (b - 1) as nat);
        lemma_cap_positive((b - 1) as nat);
    }
}

pub proof fn lemma_cap_values()
    ensures
        cap(4) == 0x1_0000_0000,
        cap(7) == 0x100_0000_0000_0000,
        cap(8) == 0x1_0000_0000_0000_0000,
{
    reveal_with_fuel(cap, 9);
}

/// Encoding a number that fits, then reading it back, gives the number.
pub proof fn lemma_le_round_trip(n: nat, w: nat)
    requires
        n < cap(w),
    ensures
        le(n, w).len() == w,
        le_value(le(n, w)) == n,
    decreases w,
{
    if w > 0 {
        let c = cap((w - 1) as nat);
        assert(n / 256 < c) by (nonlinear_arith)
            requires
                n < 256 * c,
        ;
        lemma_le_round_trip(n / 256, (w - 1) as nat);
        assert(le(n, w).drop_first() =~= le(n / 256, (w - 1) as nat));
    }
}

/// What `w` bytes hold is below `cap(w)`.
pub proof fn lemma_le_value_bound(s: Seq<u8>)
    ensures
        le_value(s) < cap(s.len()),
    decreases s.len(),
{
    if s.len() > 0 {
        lemma_le_value_bound(s.drop_first());
        let v = le_value(s.drop_first());
        let c = cap((s.len() - 1) as nat);
        let h = s[0] as nat;
        assert(h + 256 * v < 256 * c) by (nonlinear_arith)
            requires
                h < 256,
                v < c,
        ;
    }
}

/// Appends the `w` low bytes of `v` to `out`, least significant first.
pub fn push_le(out: &mut Vec<u8>, v: u64, w: usize)
    ensures
        final(out)@ == old(out)@ + le(v as nat, w as nat),
    decreases w,
{
    if w == 0 {
        assert(old(out)@ + le(v as nat, 0) =~= old(out)@);
    } else {
        out.push((v % 256) as u8);
        push_le(out, v / 256, w - 1);
        assert(((v % 256) as u8) == ((v as nat % 256) as u8));
        assert(old(out)@ + le(v as nat, w as nat) =~= old(out)@.push((v % 256) as u8) + le(
            (v / 256) as nat,
            (w - 1) as nat,
        ));
    }
}

/// Reads the number held little-endian in `b[pos..pos + w]`.
pub fn read_le(b: &[u8], pos: usize, w: usize) -> (r: u64)
    requires
        pos + w <= b@.len(),
        w <= 8,
    ensures
        r as nat == le_value(b@.subrange(pos as int, pos + w)),
    decreases w,
{
    if w == 0 {
        0
    } else {
        let len = b.len();
        assert(pos < len);
        let rest = read_le(b, pos + 1, w - 1);
        proof {
            let s = b@.subrange(pos as int, pos + w);
            assert(s.drop_first() =~= b@.subrange(pos + 1, pos + w));
            lemma_le_value_bound(b@.subrange(pos + 1, pos + w));
            lemma_cap_mono((w - 1) as nat, 7);
            lemma_cap_values();
        }
        b[pos] as u64 + 256 * rest
    }
}

} // verus!
