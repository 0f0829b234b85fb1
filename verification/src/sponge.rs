//! The sponge that drives challenge derivation: a scalar-field state that
//! absorbs elements one at a time and is squeezed for output, permuted by a
//! fixed number of full and partial mixing rounds chosen at construction.
//! Every transition is pinned down exactly by the spec functions below, so a
//! writer and a reader that absorb the same values provably reach the same
//! state and squeeze the same challenges.

use crate::bigint::{big_add, big_mul, big_rem, big_value, big_from_u64};
use crate::field::{big_to_fe, fr_to_big, lemma_moduli_bounds, scalar_modulus, Fr};
use num_bigint::BigUint;
use vstd::arithmetic::div_mod::lemma_small_mod;
use vstd::prelude::*;

verus! {

/// Constant injected by a full mixing round.
pub open spec fn full_round_constant() -> nat {
    5
}

/// Constant injected by a partial mixing round.
pub open spec fn partial_round_constant() -> nat {
    7
}

/// One full round: a cubing with constant injection, reduced in the field.
pub open spec fn full_round(x: nat) -> nat {
    (x * x * x + full_round_constant()) % scalar_modulus()
}

/// One partial round: a squaring with constant injection.
pub open spec fn partial_round(x: nat) -> nat {
    (x * x + partial_round_constant()) % scalar_modulus()
}

/// `n` full rounds applied in sequence.
pub open spec fn full_rounds(x: nat, n: nat) -> nat
    decreases n,
{
    if n == 0 {
        x
    } else {
        full_rounds(full_round(x), (n - 1) as nat)
    }
}

/// `n` partial rounds applied in sequence.
pub open spec fn partial_rounds(x: nat, n: nat) -> nat
    decreases n,
{
    if n == 0 {
        x
    } else {
        partial_rounds(partial_round(x), (n - 1) as nat)
    }
}

/// The permutation: the full rounds, then the partial rounds.
pub open spec fn permute(x: nat, r_f: nat, r_p: nat) -> nat {
    partial_rounds(full_rounds(x, r_f), r_p)
}

/// Absorbing one element: inject it additively into the state and permute.
pub open spec fn absorb_one(s: nat, e: nat, r_f: nat, r_p: nat) -> nat {
    permute((s + e) % scalar_modulus(), r_f, r_p)
}

/// Absorbing a sequence of elements in order.
pub open spec fn absorb_seq(s: nat, es: Seq<nat>, r_f: nat, r_p: nat) -> nat
    decreases es.len(),
{
    if es.len() == 0 {
        s
    } else {
        absorb_seq(absorb_one(s, es[0], r_f, r_p), es.skip(1), r_f, r_p)
    }
}

/// Squeezing: permute once more; the new state is the output.
pub open spec fn squeeze_state(s: nat, r_f: nat, r_p: nat) -> nat {
    permute(s, r_f, r_p)
}

/// The sponge: the running state, the round parameters it was created with,
/// and, for reasoning only, the history of absorbed elements.
pub struct Sponge {
    pub state: Fr,
    pub r_f: usize,
    pub r_p: usize,
    pub trace: Ghost<Seq<nat>>,
}

impl Sponge {
    /// The state is a canonical field element.
    pub open spec fn wf(&self) -> bool {
        self.state.wf()
    }

    /// A fresh sponge with the given round parameters and zero state.
    pub fn new(r_f: usize, r_p: usize) -> (r: Sponge)
        ensures
            r.wf(),
            r.state@ == 0,
            r.r_f == r_f,
            r.r_p == r_p,
            r.trace@ == Seq::<nat>::empty(),
    {
        Sponge { state: Fr::zero(), r_f, r_p, trace: Ghost(Seq::empty()) }
    }

    /// Absorb one element into the state.
    pub fn absorb(&mut self, e: &Fr)
        requires
            old(self).wf(),
            e.wf(),
        ensures
            final(self).wf(),
            final(self).state@ == absorb_one(
                old(self).state@,
                e@,
                old(self).r_f as nat,
                old(self).r_p as nat,
            ),
            final(self).trace@ == old(self).trace@.push(e@),
            final(self).r_f == old(self).r_f,
            final(self).r_p == old(self).r_p,
    {
        proof {
            lemma_moduli_bounds();
        }
        let m = Fr::modulus();
        let sb = fr_to_big(&self.state);
        let eb = fr_to_big(e);
        let sum = big_add(&sb, &eb);
        let mut cur = big_rem(&sum, &m);
        cur = run_full_rounds(cur, self.r_f, &m);
        cur = run_partial_rounds(cur, self.r_p, &m);
        proof {
            lemma_small_mod(big_value(cur), scalar_modulus());
        }
        self.state = big_to_fe(&cur);
        self.trace = Ghost(self.trace@.push(e@));
    }

    /// Absorb a slice of elements in order.
    pub fn absorb_all(&mut self, es: &Vec<Fr>)
        requires
            old(self).wf(),
            crate::field::all_wf(es@),
        ensures
            final(self).wf(),
            final(self).state@ == absorb_seq(
                old(self).state@,
                crate::field::fr_values(es@),
                old(self).r_f as nat,
                old(self).r_p as nat,
            ),
            final(self).trace@ == old(self).trace@ + crate::field::fr_values(es@),
            final(self).r_f == old(self).r_f,
            final(self).r_p == old(self).r_p,
    {
        let ghost vs = crate::field::fr_values(es@);
        let ghost s0 = self.state@;
        let ghost t0 = self.trace@;
        proof {
            assert(vs.skip(0) =~= vs);
            assert(vs.take(0) =~= Seq::<nat>::empty());
            assert(self.trace@ =~= t0 + vs.take(0));
        }
        let mut i: usize = 0;
        while i < es.len()
            invariant
                i <= es@.len(),
                self.wf(),
                crate::field::all_wf(es@),
                vs == crate::field::fr_values(es@),
                absorb_seq(self.state@, vs.skip(i as int), self.r_f as nat, self.r_p as nat)
                    == absorb_seq(s0, vs, self.r_f as nat, self.r_p as nat),
                self.trace@ == t0 + vs.take(i as int),
                self.r_f == old(self).r_f,
                self.r_p == old(self).r_p,
                s0 == old(self).state@,
                t0 == old(self).trace@,
            decreases es@.len() - i,
        {
            let ghost before = vs.skip(i as int);
            self.absorb(&es[i]);
            proof {
                assert(before[0] == vs[i as int]);
                assert(before.skip(1) =~= vs.skip(i + 1));
                assert(self.trace@ =~= t0 + vs.take(i + 1));
            }
            i = i + 1;
        }
        proof {
            assert(vs.skip(es@.len() as int) =~= Seq::<nat>::empty());
            assert(vs.take(es@.len() as int) =~= vs);
        }
    }

    /// Squeeze one output element, advancing the state: the output is the new
    /// state, so repeated squeezes keep advancing.
    pub fn squeeze(&mut self) -> (r: Fr)
        requires
            old(self).wf(),
        ensures
            final(self).wf(),
            final(self).state@ == squeeze_state(
                old(self).state@,
                old(self).r_f as nat,
                old(self).r_p as nat,
            ),
            r@ == final(self).state@,
            r.wf(),
            final(self).trace@ == old(self).trace@,
            final(self).r_f == old(self).r_f,
            final(self).r_p == old(self).r_p,
    {
        proof {
            lemma_moduli_bounds();
        }
        let m = Fr::modulus();
        let mut cur = fr_to_big(&self.state);
        cur = run_full_rounds(cur, self.r_f, &m);
        cur = run_partial_rounds(cur, self.r_p, &m);
        proof {
            lemma_small_mod(big_value(cur), scalar_modulus());
        }
        self.state = big_to_fe(&cur);
        self.state.clone()
    }
}

/// Apply `n` full rounds to a reduced state.
fn run_full_rounds(x: BigUint, n: usize, m: &BigUint) -> (r: BigUint)
    requires
        big_value(*m) == scalar_modulus(),
        big_value(x) < scalar_modulus(),
    ensures
        big_value(r) == full_rounds(big_value(x), n as nat),
        big_value(r) < scalar_modulus(),
{
    let ghost x0 = big_value(x);
    proof {
        lemma_moduli_bounds();
    }
    let c = big_from_u64(5);
    let mut cur = x;
    let mut i: usize = 0;
    while i < n
        invariant
            i <= n,
            big_value(*m) == scalar_modulus(),
            big_value(c) == full_round_constant(),
            big_value(cur) < scalar_modulus(),
            full_rounds(big_value(cur), (n - i) as nat) == full_rounds(x0, n as nat),
        decreases n - i,
    {
        let sq = big_mul(&cur, &cur);
        let cb = big_mul(&sq, &cur);
        let su = big_add(&cb, &c);
        cur = big_rem(&su, m);
        i = i + 1;
    }
    cur
}

/// Apply `n` partial rounds to a reduced state.
fn run_partial_rounds(x: BigUint, n: usize, m: &BigUint) -> (r: BigUint)
    requires
        big_value(*m) == scalar_modulus(),
        big_value(x) < scalar_modulus(),
    ensures
        big_value(r) == partial_rounds(big_value(x), n as nat),
        big_value(r) < scalar_modulus(),
{
    let ghost x0 = big_value(x);
    proof {
        lemma_moduli_bounds();
    }
    let c = big_from_u64(7);
    let mut cur = x;
    let mut i: usize = 0;
    while i < n
        invariant
            i <= n,
            big_value(*m) == scalar_modulus(),
            big_value(c) == partial_round_constant(),
            big_value(cur) < scalar_modulus(),
            partial_rounds(big_value(cur), (n - i) as nat) == partial_rounds(x0, n as nat),
        decreases n - i,
    {
        let sq = big_mul(&cur, &cur);
        let su = big_add(&sq, &c);
        cur = big_rem(&su, m);
        i = i + 1;
    }
    cur
}

} // verus!
