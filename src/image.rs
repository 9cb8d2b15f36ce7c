//! Little-endian byte images of unsigned numbers: the order in which the x86
//! family this crate targets lays an integer out in memory.

use vstd::arithmetic::power::{lemma_pow_positive, pow};
use vstd::prelude::*;

verus! {

/// The `n` lowest bytes of `v`, least significant first.
pub open spec fn le_bytes(v: nat, n: nat) -> Seq<u8>
    decreases n,
{
    if n == 0 {
        seq![]
    } else {
        seq![(v % 256) as u8] + le_bytes(v / 256, (n - 1) as nat)
    }
}

/// The number whose bytes, least significant first, are `s`.
pub open spec fn le_value(s: Seq<u8>) -> nat
    decreases s.len(),
{
    if s.len() == 0 {
        0
    } else {
        s[0] as nat + 256 * le_value(s.drop_first())
    }
}

/// `le_bytes` gives exactly `n` bytes.
pub proof fn lemma_le_bytes_len(v: nat, n: nat)
    ensures
        le_bytes(v, n).len() == n,
    decreases n,
{
    if n > 0 {
        lemma_le_bytes_len(v / 256, (n - 1) as nat);
    }
}

/// A number read from `s` is below `256` to the power of its length.
pub proof fn lemma_le_value_bound(s: Seq<u8>)
    ensures
        le_value(s) < pow(256, s.len()),
    decreases s.len(),
{
    reveal(pow);
    if s.len() > 0 {
        lemma_le_value_bound(s.drop_first());
        let rest = le_value(s.drop_first());
        let p = pow(256, (s.len() - 1) as nat);
        assert(s[0] as nat + 256 * rest < 256 * p) by (nonlinear_arith)
            requires
                rest < p,
                s[0] < 256,
        ;
    }
}

/// Reading the bytes back gives the bytes: `le_bytes` undoes `le_value`.
pub proof fn lemma_le_bytes_of_value(s: Seq<u8>)
    ensures
        le_bytes(le_value(s), s.len()) == s,
    decreases s.len(),
{
    if s.len() > 0 {
        let rest = s.drop_first();
        lemma_le_bytes_of_value(rest);
        let v = le_value(s);
        assert(v % 256 == s[0] as nat && v / 256 == le_value(rest)) by (nonlinear_arith)
            requires
                v == s[0] as nat + 256 * le_value(rest),
                s[0] < 256,
        ;
        assert(le_bytes(v, s.len()) =~= s);
    }
}

/// Writing a number below `256` to the power `n` into `n` bytes loses
/// nothing: `le_value` undoes `le_bytes`.
pub proof fn lemma_le_value_of_bytes(v: nat, n: nat)
    requires
        v < pow(256, n),
    ensures
        le_value(le_bytes(v, n)) == v,
    decreases n,
{
    reveal(pow);
    if n == 0 {
        assert(v == 0);
    } else {
        let p = pow(256, (n - 1) as nat);
        lemma_pow_positive(256, (n - 1) as nat);
        assert(v / 256 < p) by (nonlinear_arith)
            requires
                v < 256 * p,
        ;
        lemma_le_value_of_bytes(v / 256, (n - 1) as nat);
        let s = le_bytes(v, n);
        assert(s.drop_first() =~= le_bytes(v / 256, (n - 1) as nat));
        assert(v == v % 256 + 256 * (v / 256)) by (nonlinear_arith);
    }
}

/// The `n` lowest bytes of `v`, least significant first.
pub fn encode_le(v: u128, n: usize) -> (r: Vec<u8>)
    ensures
        r@ == le_bytes(v as nat, n as nat),
{
    let mut out: Vec<u8> = Vec::new();
    let mut cur: u128 = v;
    let mut i: usize = 0;
    while i < n
        invariant
            i <= n,
            out@ + le_bytes(cur as nat, (n - i) as nat) == le_bytes(v as nat, n as nat),
        decreases n - i,
    {
        let ghost before = out@;
        let ghost k = (n - i) as nat;
        out.push((cur % 256) as u8);
        assert(le_bytes(cur as nat, k) == seq![(cur % 256) as u8] + le_bytes(
            (cur / 256) as nat,
            (k - 1) as nat,
        ));
        assert(out@ + le_bytes((cur / 256) as nat, (k - 1) as nat) =~= before + le_bytes(
            cur as nat,
            k,
        ));
        cur = cur / 256;
        i = i + 1;
    }
    assert(le_bytes(cur as nat, 0) =~= seq![]);
    assert(out@ + seq![] =~= out@);
    out
}

/// The number whose bytes, least significant first, are `s`; at most sixteen
/// bytes, so that it fits.
pub fn decode_le(s: &[u8]) -> (r: u128)
    requires
        s@.len() <= 16,
    ensures
        r as nat == le_value(s@),
{
    let len = s.len();
    let mut acc: u128 = 0;
    let mut i: usize = len;
    proof {
        reveal(pow);
        assert(s@.subrange(len as int, len as int) =~= seq![]);
    }
    while i > 0
        invariant
            i <= len == s@.len() <= 16,
            acc as nat == le_value(s@.subrange(i as int, len as int)),
        decreases i,
    {
        let ghost tail = s@.subrange(i as int, len as int);
        let ghost longer = s@.subrange(i - 1, len as int);
        proof {
            assert(longer.drop_first() =~= tail);
            lemma_le_value_bound(tail);
            lemma_pow_fits(tail.len());
            let p = pow(256, tail.len());
            assert(acc * 256 + s@[i - 1] < 0x1_0000_0000_0000_0000_0000_0000_0000_0000) by (nonlinear_arith)
                requires
                    acc < p,
                    256 * p <= 0x1_0000_0000_0000_0000_0000_0000_0000_0000,
                    s@[i - 1] < 256,
            ;
        }
        acc = acc * 256 + s[i - 1] as u128;
        i = i - 1;
    }
    assert(s@.subrange(0, len as int) =~= s@);
    acc
}

/// `256` to a power below sixteen, times `256`, is at most `2` to the `128`.
proof fn lemma_pow_fits(e: nat)
    requires
        e < 16,
    ensures
        256 * pow(256, e) <= 0x1_0000_0000_0000_0000_0000_0000_0000_0000,
{
    vstd::arithmetic::power::lemma_pow_increases(256, e, 15);
    lemma_pow_sixteen();
    reveal(pow);
}

/// `256` to the sixteenth is `2` to the `128`.
proof fn lemma_pow_sixteen()
    ensures
        pow(256, 15) * 256 == 0x1_0000_0000_0000_0000_0000_0000_0000_0000,
{
    reveal_with_fuel(pow, 16);
}

} // verus!
