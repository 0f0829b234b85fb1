use vstd::arithmetic::div_mod::{
    lemma_add_mod_noop, lemma_mod_multiples_basic, lemma_small_mod,
};
use vstd::arithmetic::power2::{lemma2_to64, lemma_pow2_adds, lemma_pow2_pos, pow2};
use vstd::prelude::*;

verus! {

/// The unsigned integer denoted by a little-endian byte string.
pub open spec fn le_value(s: Seq<u8>) -> nat
    decreases s.len(),
{
    if s.len() == 0 {
        0
    } else {
        s[0] as nat + 256 * le_value(s.skip(1))
    }
}

/// A little-endian byte string of length `n` denotes a value below `2^(8n)`.
pub proof fn lemma_le_value_bound(s: Seq<u8>)
    ensures
        le_value(s) < pow2(8 * s.len()),
    decreases s.len(),
{
    if s.len() == 0 {
        lemma_pow2_pos(0);
    } else {
        lemma_le_value_bound(s.skip(1));
        lemma_pow2_adds(8, 8 * (s.len() - 1) as nat);
        lemma2_to64();
        assert(le_value(s) <= 255 + 256 * (pow2(8 * (s.len() - 1) as nat) - 1));
    }
}

/// Concatenation: the tail contributes its value scaled by the width of the head.
pub proof fn lemma_le_value_append(s: Seq<u8>, t: Seq<u8>)
    ensures
        le_value(s + t) == le_value(s) + pow2(8 * s.len()) * le_value(t),
    decreases s.len(),
{
    if s.len() == 0 {
        assert(s + t =~= t);
        lemma2_to64();
    } else {
        assert((s + t).skip(1) =~= s.skip(1) + t);
        lemma_le_value_append(s.skip(1), t);
        lemma_pow2_adds(8, 8 * (s.len() - 1) as nat);
        lemma2_to64();
        let p = pow2(8 * (s.len() - 1) as nat);
        let v = le_value(t);
        assert(pow2(8 * s.len()) == 256 * p);
        assert(le_value(s + t) == (s + t)[0] as nat + 256 * le_value((s + t).skip(1)));
        assert(le_value(s + t) == s[0] as nat + 256 * (le_value(s.skip(1)) + p * v));
        assert(256 * (le_value(s.skip(1)) + p * v) == 256 * le_value(s.skip(1)) + 256 * (p
            * v)) by (nonlinear_arith);
        assert(256 * (p * v) == (256 * p) * v) by (nonlinear_arith);
    }
}

/// The highest byte bounds the value from below, scaled by its position.
pub proof fn lemma_le_value_lower(s: Seq<u8>)
    requires
        s.len() > 0,
    ensures
        le_value(s) >= pow2(8 * (s.len() - 1) as nat) * s[s.len() - 1],
    decreases s.len(),
{
    if s.len() == 1 {
        lemma2_to64();
        assert(le_value(s) == s[0] as nat + 256 * le_value(s.skip(1)));
        assert(pow2(8 * (s.len() - 1) as nat) == 1);
        assert(pow2(8 * (s.len() - 1) as nat) * s[s.len() - 1] == s[0] as nat);
    } else {
        lemma_le_value_lower(s.skip(1));
        lemma_pow2_adds(8, 8 * (s.len() - 2) as nat);
        lemma2_to64();
        let p = pow2(8 * (s.len() - 2) as nat);
        let c = s[s.len() - 1] as nat;
        assert(s.skip(1)[s.len() - 2] == s[s.len() - 1]);
        assert(le_value(s.skip(1)) >= p * c);
        assert(256 * (p * c) == (256 * p) * c) by (nonlinear_arith);
        assert(le_value(s) >= 256 * le_value(s.skip(1)));
        assert(256 * le_value(s.skip(1)) >= 256 * (p * c));
        assert(pow2(8 * (s.len() - 1) as nat) == 256 * p);
        assert(le_value(s) >= (256 * p) * c);
    }
}

/// Two byte strings of equal length with the same value are equal.
pub proof fn lemma_le_value_injective(s: Seq<u8>, t: Seq<u8>)
    requires
        s.len() == t.len(),
        le_value(s) == le_value(t),
    ensures
        s =~= t,
    decreases s.len(),
{
    if s.len() > 0 {
        lemma_head_from_value(s);
        lemma_head_from_value(t);
        lemma_le_value_injective(s.skip(1), t.skip(1));
        assert(s =~= seq![s[0]] + s.skip(1));
        assert(t =~= seq![t[0]] + t.skip(1));
    }
}

/// The first byte and the rest are recovered from the value by division with
/// remainder by 256.
pub proof fn lemma_head_from_value(s: Seq<u8>)
    requires
        s.len() > 0,
    ensures
        s[0] == le_value(s) % 256,
        le_value(s.skip(1)) == le_value(s) / 256,
{
    let v = le_value(s);
    assert(v == s[0] as nat + 256 * le_value(s.skip(1)));
    lemma_mod_multiples_basic(le_value(s.skip(1)) as int, 256);
    lemma_add_mod_noop(s[0] as int, 256 * le_value(s.skip(1)) as int, 256);
    lemma_small_mod(s[0] as nat, 256);
    assert(v as int % 256 == s[0] as int % 256);
}

/// The parity of the value is the parity of the first byte.
pub proof fn lemma_le_value_parity(s: Seq<u8>)
    requires
        s.len() > 0,
    ensures
        le_value(s) % 2 == s[0] % 2,
{
    assert(le_value(s) == s[0] as nat + 256 * le_value(s.skip(1)));
    lemma_mod_multiples_basic(128 * le_value(s.skip(1)) as int, 2);
    assert(256 * le_value(s.skip(1)) as int == 2 * (128 * le_value(s.skip(1)) as int));
    lemma_add_mod_noop(s[0] as int, 256 * le_value(s.skip(1)) as int, 2);
    lemma_mod_multiples_basic(128 * le_value(s.skip(1)) as int, 2);
    assert((256 * le_value(s.skip(1)) as int) % 2 == 0) by {
        lemma_mod_multiples_basic(128 * le_value(s.skip(1)) as int, 2);
    };
}

/// Copy out a window of a byte vector.
pub fn copy_range(src: &Vec<u8>, start: usize, n: usize) -> (r: Vec<u8>)
    requires
        start + n <= src@.len(),
    ensures
        r@ == src@.subrange(start as int, start + n),
{
    let mut r: Vec<u8> = Vec::new();
    let len = src.len();
    let mut i: usize = 0;
    while i < n
        invariant
            i <= n,
            start + n <= src@.len(),
            src@.len() == len,
            r@ =~= src@.subrange(start as int, start + i),
        decreases n - i,
    {
        r.push(src[start + i]);
        i = i + 1;
    }
    proof {
        assert(r@ =~= src@.subrange(start as int, start + n));
    }
    r
}

/// Append one byte vector to another.
pub fn append_bytes(dst: &mut Vec<u8>, src: &Vec<u8>)
    ensures
        final(dst)@ == old(dst)@ + src@,
{
    let mut i: usize = 0;
    while i < src.len()
        invariant
            i <= src@.len(),
            dst@ =~= old(dst)@ + src@.take(i as int),
        decreases src@.len() - i,
    {
        dst.push(src[i]);
        i = i + 1;
    }
    proof {
        assert(dst@ =~= old(dst)@ + src@);
    }
}

} // verus!
