use vstd::prelude::*;
use crate::bytes::{cap, lemma_cap_values};
use crate::strings::{OsString, enc_list, fits, lemma_list_round_trip, push_list, strings_view, take_list};

verus! {

/// What std's `DefaultHasher` gives for the bytes `b`.
pub uninterp spec fn sip_of(b: Seq<u8>) -> u64;

/// Relies on std's DefaultHasher: every hasher made by `new` starts alike,
/// so its digest is a function of the bytes written to it.
#[verifier::external_body]
fn digest(b: &[u8]) -> (r: u64)
    ensures
        r == sip_of(b@),
{
    let mut hasher = std::collections::hash_map::DefaultHasher::new();
    std::hash::Hasher::write(&mut hasher, b);
    std::hash::Hasher::finish(&hasher)
}

/// The lowercase hexadecimal digit for `d` in `0..16`.
pub open spec fn hex_digit(d: nat) -> char {
    if d < 10 {
        (48 + d) as char
    } else {
        (87 + d) as char
    }
}

/// `n` lowercase hexadecimal digits of `h`, most significant first.
pub open spec fn hex_of(h: nat, n: nat) -> Seq<char>
    decreases n,
{
    if n == 0 {
        seq![]
    } else {
        hex_of(h / 16, (n - 1) as nat).push(hex_digit(h % 16))
    }
}

/// Relies on std's formatting: `{:016x}` writes sixteen lowercase
/// hexadecimal digits, zero-padded, most significant first.
#[verifier::external_body]
fn hex16(h: u64) -> (r: String)
    ensures
        r@ == hex_of(h as nat, 16),
{
    format!("{:016x}", h)
}

/// The bytes that stand for a command when its key is taken: the count of
/// strings, then each string framed by its length, all counts in 8 bytes.
pub open spec fn command_frame(c: Seq<Seq<u8>>) -> Seq<u8> {
    enc_list(c, 8)
}

/// The key of a command: sixteen hexadecimal digits of the hash of its frame.
pub open spec fn key_of(c: Seq<Seq<u8>>) -> Seq<char> {
    hex_of(sip_of(command_frame(c)) as nat, 16)
}

/// Any command held in memory has counts and lengths that fit 8 bytes.
fn command_fits(command: &Vec<OsString>)
    ensures
        fits(strings_view(command@), 8),
{
    proof {
        lemma_cap_values();
    }
    let n = command.len();
    let mut i: usize = 0;
    while i < n
        invariant
            0 <= i <= n,
            n == command@.len(),
            cap(8) == 0x1_0000_0000_0000_0000,
            forall|j: int| 0 <= j < i ==> #[trigger] command@[j]@.len() < cap(8),
        decreases n - i,
    {
        let _l = command[i].bytes.len();
        i += 1;
    }
    assert(forall|j: int|
        0 <= j < strings_view(command@).len() ==> #[trigger] strings_view(command@)[j]
            == command@[j]@);
}

/// The frame of a command, from which its key is taken.
pub fn frame_command(command: &Vec<OsString>) -> (r: Vec<u8>)
    ensures
        r@ == command_frame(strings_view(command@)),
        fits(strings_view(command@), 8),
{
    command_fits(command);
    let mut out: Vec<u8> = Vec::new();
    push_list(&mut out, command, 8);
    assert(out@ =~= command_frame(strings_view(command@)));
    out
}

/// The cache key of a command.
pub fn cache_key(command: &Vec<OsString>) -> (r: String)
    ensures
        r@ == key_of(strings_view(command@)),
{
    let frame = frame_command(command);
    let h = digest(frame.as_slice());
    hex16(h)
}

pub proof fn lemma_hex_digit_injective(a: nat, b: nat)
    requires
        a < 16,
        b < 16,
        hex_digit(a) == hex_digit(b),
    ensures
        a == b,
{
}

pub proof fn lemma_hex_injective(a: nat, b: nat, n: nat)
    requires
        hex_of(a, n) == hex_of(b, n),
        a < cap16(n),
        b < cap16(n),
    ensures
        a == b,
    decreases n,
{
    if n > 0 {
        let pa = hex_of(a / 16, (n - 1) as nat);
        let pb = hex_of(b / 16, (n - 1) as nat);
        lemma_hex_len(a / 16, (n - 1) as nat);
        lemma_hex_len(b / 16, (n - 1) as nat);
        assert(hex_of(a, n).last() == hex_digit(a % 16));
        assert(hex_of(b, n).last() == hex_digit(b % 16));
        lemma_hex_digit_injective(a % 16, b % 16);
        assert(pa =~= hex_of(a, n).drop_last());
        assert(pb =~= hex_of(b, n).drop_last());
        let c = cap16((n - 1) as nat);
        assert(a / 16 < c && b / 16 < c) by (nonlinear_arith)
            requires
                a < 16 * c,
                b < 16 * c,
        ;
        lemma_hex_injective(a / 16, b / 16, (n - 1) as nat);
    }
}

pub proof fn lemma_hex_len(h: nat, n: nat)
    ensures
        hex_of(h, n).len() == n,
    decreases n,
{
    if n > 0 {
        lemma_hex_len(h / 16, (n - 1) as nat);
    }
}

/// How many numbers `n` hexadecimal digits can hold.
pub open spec fn cap16(n: nat) -> nat
    decreases n,
{
    if n == 0 {
        1
    } else {
        16 * cap16((n - 1) as nat)
    }
}

/// Distinct commands, whatever their order, arity or content, have distinct
/// frames, and they share a key only where the hash of those distinct frames
/// collides.
pub proof fn lemma_key_separates(c1: Seq<Seq<u8>>, c2: Seq<Seq<u8>>)
    requires
        fits(c1, 8),
        fits(c2, 8),
        c1 != c2,
    ensures
        command_frame(c1) != command_frame(c2),
        key_of(c1) == key_of(c2) ==> sip_of(command_frame(c1)) == sip_of(command_frame(c2)),
{
    let e = Seq::<u8>::empty();
    lemma_list_round_trip(c1, 8, false, e);
    lemma_list_round_trip(c2, 8, false, e);
    assert(command_frame(c1) + e =~= command_frame(c1));
    assert(command_frame(c2) + e =~= command_frame(c2));
    if key_of(c1) == key_of(c2) {
        reveal_with_fuel(cap16, 17);
        lemma_hex_injective(
            sip_of(command_frame(c1)) as nat,
            sip_of(command_frame(c2)) as nat,
            16,
        );
    }
}

} // verus!
