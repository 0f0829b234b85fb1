//! Limb decomposition: splitting a base-field element into fixed-width limbs
//! small enough to live in the scalar field, by repeated mask-and-shift, least
//! significant limb first. This is the lossless half of the point-encoding
//! strategies; the reconstruction law at the end of the module says exactly
//! when it loses nothing.

use crate::bigint::{big_and_low, big_from_u64, big_shl, big_shr, big_sub, big_value};
use num_bigint::BigUint;
use crate::field::{big_to_fe, fe_to_big, fr_values, all_wf, scalar_modulus, Fq, Fr};
use vstd::arithmetic::div_mod::{
    lemma_div_denominator, lemma_fundamental_div_mod, lemma_small_mod,
};
use vstd::arithmetic::mul::lemma_mul_inequality;
use vstd::arithmetic::power2::{lemma2_to64, lemma_pow2_adds, lemma_pow2_pos, pow2};
use vstd::prelude::*;

verus! {

/// The limb values of `x`: limb `i` holds bits `i*b .. (i+1)*b` of `x`,
/// reduced into the scalar field as every limb is on conversion.
pub open spec fn limbs_of(x: nat, l: nat, b: nat) -> Seq<nat> {
    Seq::new(l, |i: int| ((x / pow2((i * b) as nat)) % pow2(b)) % scalar_modulus())
}

/// Split an unsigned integer into `number_of_limbs` limbs of `bit_len` bits,
/// least significant first, each converted to a scalar-field element.
pub fn decompose_big(e: BigUint, number_of_limbs: usize, bit_len: usize) -> (r: Vec<Fr>)
    ensures
        r@.len() == number_of_limbs,
        fr_values(r@) == limbs_of(big_value(e), number_of_limbs as nat, bit_len as nat),
        all_wf(r@),
{
    let ghost x0 = big_value(e);
    let ghost b = bit_len as nat;
    let one = big_from_u64(1);
    let shifted = big_shl(&one, bit_len);
    proof {
        lemma_pow2_pos(b);
    }
    let mask = big_sub(&shifted, &one);
    proof {
        lemma2_to64();
        assert((0 as nat) * b == 0);
        assert(pow2(0) == 1);
        assert(x0 / 1 == x0);
        assert(fr_values(Seq::<Fr>::empty()) =~= limbs_of(x0, 0, b));
    }
    let mut e_cur = e;
    let mut limbs: Vec<Fr> = Vec::new();
    let mut i: usize = 0;
    while i < number_of_limbs
        invariant
            i <= number_of_limbs,
            limbs@.len() == i,
            big_value(mask) + 1 == pow2(b),
            b == bit_len as nat,
            big_value(e_cur) == x0 / pow2((i as nat) * b),
            fr_values(limbs@) == limbs_of(x0, i as nat, b),
            all_wf(limbs@),
        decreases number_of_limbs - i,
    {
        let ghost prev = limbs@;
        proof {
            assert(big_value(mask) + 1 == pow2(b));
            lemma_pow2_pos(b);
            lemma_pow2_pos((i as nat) * b);
        }
        let limb_big = big_and_low(&e_cur, &mask);
        e_cur = big_shr(&e_cur, bit_len);
        let limb = big_to_fe(&limb_big);
        limbs.push(limb);
        proof {
            lemma_div_denominator(x0 as int, pow2((i as nat) * b) as int, pow2(b) as int);
            lemma_pow2_adds((i as nat) * b, b);
            assert((i as nat) * b + b == ((i + 1) as nat) * b) by (nonlinear_arith);
            assert(limbs@ =~= prev.push(limb));
            assert forall|j: int| 0 <= j < i + 1 implies fr_values(limbs@)[j] == limbs_of(
                x0,
                (i + 1) as nat,
                b,
            )[j] by {
                if j < i {
                    assert(fr_values(prev)[j] == limbs_of(x0, i as nat, b)[j]);
                    assert(limbs@[j] == prev[j]);
                } else {
                    assert(limbs@[j] == limb);
                }
            }
            assert(fr_values(limbs@) =~= limbs_of(x0, (i + 1) as nat, b));
        }
        i = i + 1;
    }
    limbs
}

/// Split a base-field element into limbs of the scalar field.
pub fn decompose(e: &Fq, number_of_limbs: usize, bit_len: usize) -> (r: Vec<Fr>)
    ensures
        r@.len() == number_of_limbs,
        fr_values(r@) == limbs_of(e@, number_of_limbs as nat, bit_len as nat),
        all_wf(r@),
{
    decompose_big(fe_to_big(e), number_of_limbs, bit_len)
}

/// The value a limb sequence reconstructs: the sum of `limb_i * 2^(i*b)`,
/// written as a Horner recursion.
pub open spec fn weighted_limb_sum(s: Seq<nat>, b: nat) -> nat
    decreases s.len(),
{
    if s.len() == 0 {
        0
    } else {
        s[0] + pow2(b) * weighted_limb_sum(s.skip(1), b)
    }
}

/// Limb round-trip law: decomposing any value into `l` limbs of `b` bits and
/// reconstructing the sum of `limb_i * 2^(i*b)` recovers the value exactly,
/// provided the limbs cover it (`x < 2^(l*b)`) and a limb fits the scalar
/// field without reduction (`2^b <= scalar modulus`).
pub proof fn lemma_limb_round_trip(x: nat, l: nat, b: nat)
    requires
        pow2(b) <= scalar_modulus(),
        x < pow2(l * b),
    ensures
        weighted_limb_sum(limbs_of(x, l, b), b) == x,
    decreases l,
{
    lemma_pow2_pos(b);
    if l == 0 {
        lemma2_to64();
        assert(pow2(0) == 1);
        assert(x == 0);
        assert(limbs_of(x, 0, b) =~= Seq::<nat>::empty());
    } else {
        let pb = pow2(b);
        let h = x % pb;
        let t = x / pb;
        let s = limbs_of(x, l, b);
        lemma2_to64();
        assert(pow2((0 * b) as nat) == 1);
        assert(x / 1 == x);
        lemma_small_mod(h, scalar_modulus());
        assert(s[0] == h);
        // The tail of the limb sequence is the decomposition of the shifted value.
        assert forall|i: int| 0 <= i < l - 1 implies s.skip(1)[i] == limbs_of(t, (l - 1) as nat,
            b)[i] by {
            lemma_pow2_pos((i * b) as nat);
            lemma_div_denominator(x as int, pb as int, pow2((i * b) as nat) as int);
            lemma_pow2_adds(b, (i * b) as nat);
            assert(b + i * b == (i + 1) * b) by (nonlinear_arith);
        }
        assert(s.skip(1) =~= limbs_of(t, (l - 1) as nat, b));
        // The shifted value is covered by one limb fewer.
        lemma_pow2_adds(((l - 1) as nat) * b, b);
        assert((l as int - 1) * b + b == l * b) by (nonlinear_arith);
        let pw = pow2(((l - 1) as nat) * b);
        assert(x < pw * pb);
        lemma_fundamental_div_mod(x as int, pb as int);
        assert(t < pw) by {
            if t >= pw {
                lemma_mul_inequality(pw as int, t as int, pb as int);
                assert(pw * pb <= t * pb);
                assert(t * pb == pb * t) by (nonlinear_arith);
                assert(x >= pb * t);
            }
        }
        lemma_limb_round_trip(t, (l - 1) as nat, b);
        assert(weighted_limb_sum(s, b) == h + pb * t);
        assert(x == pb * t + h);
    }
}

} // verus!
