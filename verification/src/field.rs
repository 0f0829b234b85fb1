//! The two prime fields of the protocol: the curve's base field, where point
//! coordinates live, and its scalar field, which the sponge absorbs. An
//! element is held as its canonical 32-byte little-endian encoding, so that
//! serialization is exact and equality is equality of canonical values.

use crate::bigint::{big_from_bytes_le, big_lt, big_rem, big_to_bytes_le, big_value};
use crate::bytes::{
    le_value, lemma_le_value_append, lemma_le_value_bound, lemma_le_value_injective,
    lemma_le_value_lower, lemma_le_value_parity,
};
use num_bigint::BigUint;
use vstd::arithmetic::div_mod::lemma_small_mod;
use vstd::arithmetic::power2::{lemma2_to64, lemma_pow2_adds, pow2};
use vstd::prelude::*;

verus! {

/// Little-endian canonical bytes of the base-field modulus.
pub open spec fn base_modulus_bytes() -> Seq<u8> {
    seq![
        0x47u8, 0xfd, 0x7c, 0xd8, 0x16, 0x8c, 0x20, 0x3c, 0x8d, 0xca, 0x71, 0x68, 0x91, 0x6a,
        0x81, 0x97, 0x5d, 0x58, 0x81, 0x81, 0xb6, 0x45, 0x50, 0xb8, 0x29, 0xa0, 0x31, 0xe1,
        0x72, 0x4e, 0x64, 0x30,
    ]
}

/// Little-endian canonical bytes of the scalar-field modulus.
pub open spec fn scalar_modulus_bytes() -> Seq<u8> {
    seq![
        0x01u8, 0x00, 0x00, 0xf0, 0x93, 0xf5, 0xe1, 0x43, 0x91, 0x70, 0xb9, 0x79, 0x48, 0xe8,
        0x33, 0x28, 0x5d, 0x58, 0x81, 0x81, 0xb6, 0x45, 0x50, 0xb8, 0x29, 0xa0, 0x31, 0xe1,
        0x72, 0x4e, 0x64, 0x30,
    ]
}

/// The base-field modulus, as the number its canonical bytes denote.
pub open spec fn base_modulus() -> nat {
    le_value(base_modulus_bytes())
}

/// The scalar-field modulus.
pub open spec fn scalar_modulus() -> nat {
    le_value(scalar_modulus_bytes())
}

/// The bounds on the two moduli that the rest of the library leans on: both
/// fit in 32 bytes, and both exceed `2^253`.
pub proof fn lemma_moduli_bounds()
    ensures
        pow2(253) < base_modulus(),
        base_modulus() < pow2(256),
        pow2(253) < scalar_modulus(),
        scalar_modulus() < pow2(256),
{
    lemma_le_value_bound(base_modulus_bytes());
    lemma_le_value_bound(scalar_modulus_bytes());
    lemma_le_value_lower(base_modulus_bytes());
    lemma_le_value_lower(scalar_modulus_bytes());
    lemma_pow2_adds(248, 5);
    lemma_pow2_adds(248, 8);
    lemma2_to64();
    assert(pow2(248) * 0x30 > pow2(248) * pow2(5)) by (nonlinear_arith)
        requires
            pow2(248) > 0,
            pow2(5) == 32,
    ;
}

/// An element of the base field.
#[derive(Debug)]
pub struct Fq {
    pub bytes: Vec<u8>,
}

/// An element of the scalar field.
#[derive(Debug)]
pub struct Fr {
    pub bytes: Vec<u8>,
}

impl View for Fq {
    type V = nat;

    open spec fn view(&self) -> nat {
        le_value(self.bytes@)
    }
}

impl View for Fr {
    type V = nat;

    open spec fn view(&self) -> nat {
        le_value(self.bytes@)
    }
}

impl Fq {
    /// Canonical: exactly 32 bytes, value below the modulus.
    pub open spec fn wf(&self) -> bool {
        self.bytes@.len() == 32 && le_value(self.bytes@) < base_modulus()
    }

    /// Decode a canonical 32-byte encoding; rejects any other byte string.
    pub fn from_bytes(bytes: Vec<u8>) -> (r: Option<Fq>)
        ensures
            r is Some <==> (bytes@.len() == 32 && le_value(bytes@) < base_modulus()),
            (r matches Some(f) ==> f.bytes@ == bytes@ && f.wf()),
    {
        if bytes.len() != 32 {
            return None;
        }
        let n = big_from_bytes_le(bytes.as_slice());
        let m = Fq::modulus();
        if big_lt(&n, &m) {
            Some(Fq { bytes })
        } else {
            None
        }
    }

    /// The canonical little-endian encoding.
    pub fn as_bytes(&self) -> (r: &Vec<u8>)
        ensures
            r@ == self.bytes@,
    {
        &self.bytes
    }

    /// The published base-field modulus as a big integer.
    pub fn modulus() -> (r: BigUint)
        ensures
            big_value(r) == base_modulus(),
    {
        let bytes = modulus_bytes_vec(true);
        big_from_bytes_le(bytes.as_slice())
    }
}

impl Fr {
    /// Canonical: exactly 32 bytes, value below the modulus.
    pub open spec fn wf(&self) -> bool {
        self.bytes@.len() == 32 && le_value(self.bytes@) < scalar_modulus()
    }

    /// Decode a canonical 32-byte encoding; rejects any other byte string.
    pub fn from_bytes(bytes: Vec<u8>) -> (r: Option<Fr>)
        ensures
            r is Some <==> (bytes@.len() == 32 && le_value(bytes@) < scalar_modulus()),
            (r matches Some(f) ==> f.bytes@ == bytes@ && f.wf()),
    {
        if bytes.len() != 32 {
            return None;
        }
        let n = big_from_bytes_le(bytes.as_slice());
        let m = Fr::modulus();
        if big_lt(&n, &m) {
            Some(Fr { bytes })
        } else {
            None
        }
    }

    /// The canonical little-endian encoding.
    pub fn as_bytes(&self) -> (r: &Vec<u8>)
        ensures
            r@ == self.bytes@,
    {
        &self.bytes
    }

    /// The published scalar-field modulus as a big integer.
    pub fn modulus() -> (r: BigUint)
        ensures
            big_value(r) == scalar_modulus(),
    {
        let bytes = modulus_bytes_vec(false);
        big_from_bytes_le(bytes.as_slice())
    }

    /// The element denoting a small machine integer.
    pub fn from_u64(n: u64) -> (r: Fr)
        ensures
            r@ == n,
            r.wf(),
    {
        let n_big = crate::bigint::big_from_u64(n);
        proof {
            lemma_moduli_bounds();
            lemma2_to64();
            vstd::arithmetic::power2::lemma_pow2_strictly_increases(64, 253);
            lemma_small_mod(n as nat, scalar_modulus());
        }
        big_to_fe(&n_big)
    }

    /// The additive identity.
    pub fn zero() -> (r: Fr)
        ensures
            r@ == 0,
            r.wf(),
    {
        Fr::from_u64(0)
    }

    /// The multiplicative identity.
    pub fn one() -> (r: Fr)
        ensures
            r@ == 1,
            r.wf(),
    {
        Fr::from_u64(1)
    }
}

/// The canonical modulus bytes of one of the two fields, as a vector.
fn modulus_bytes_vec(base: bool) -> (r: Vec<u8>)
    ensures
        base ==> r@ == base_modulus_bytes(),
        !base ==> r@ == scalar_modulus_bytes(),
{
    let mut v: Vec<u8> = Vec::new();
    let shared: [u8; 16] = [
        0x5d, 0x58, 0x81, 0x81, 0xb6, 0x45, 0x50, 0xb8, 0x29, 0xa0, 0x31, 0xe1, 0x72, 0x4e, 0x64,
        0x30,
    ];
    let low: [u8; 16] = if base {
        [
            0x47, 0xfd, 0x7c, 0xd8, 0x16, 0x8c, 0x20, 0x3c, 0x8d, 0xca, 0x71, 0x68, 0x91, 0x6a,
            0x81, 0x97,
        ]
    } else {
        [
            0x01, 0x00, 0x00, 0xf0, 0x93, 0xf5, 0xe1, 0x43, 0x91, 0x70, 0xb9, 0x79, 0x48, 0xe8,
            0x33, 0x28,
        ]
    };
    let mut i: usize = 0;
    while i < 16
        invariant
            i <= 16,
            v@.len() == i,
            base ==> v@ =~= base_modulus_bytes().take(i as int),
            !base ==> v@ =~= scalar_modulus_bytes().take(i as int),
            base ==> (forall|j: int| 0 <= j < 16 ==> low[j] == base_modulus_bytes()[j]),
            !base ==> (forall|j: int| 0 <= j < 16 ==> low[j] == scalar_modulus_bytes()[j]),
        decreases 16 - i,
    {
        v.push(low[i]);
        i = i + 1;
    }
    let mut i: usize = 0;
    while i < 16
        invariant
            i <= 16,
            v@.len() == 16 + i,
            base ==> v@ =~= base_modulus_bytes().take(16 + i as int),
            !base ==> v@ =~= scalar_modulus_bytes().take(16 + i as int),
            base ==> (forall|j: int| 0 <= j < 16 ==> shared[j] == base_modulus_bytes()[16 + j]),
            !base ==> (forall|j: int| 0 <= j < 16 ==> shared[j] == scalar_modulus_bytes()[16 + j]),
        decreases 16 - i,
    {
        v.push(shared[i]);
        i = i + 1;
    }
    proof {
        if base {
            assert(v@ =~= base_modulus_bytes());
        } else {
            assert(v@ =~= scalar_modulus_bytes());
        }
    }
    v
}

/// Reinterpret a base-field element as the unsigned integer its canonical
/// bytes denote.
pub fn fe_to_big(e: &Fq) -> (r: BigUint)
    ensures
        big_value(r) == e@,
{
    big_from_bytes_le(e.bytes.as_slice())
}

/// Reinterpret a scalar-field element as an unsigned integer.
pub fn fr_to_big(e: &Fr) -> (r: BigUint)
    ensures
        big_value(r) == e@,
{
    big_from_bytes_le(e.bytes.as_slice())
}

/// Reduce an unsigned integer into the scalar field and decode it: the result
/// is the canonical element of the integer's residue class.
pub fn big_to_fe(n: &BigUint) -> (r: Fr)
    ensures
        r@ == big_value(*n) % scalar_modulus(),
        r.wf(),
{
    let m = Fr::modulus();
    proof {
        lemma_moduli_bounds();
    }
    let e = big_rem(n, &m);
    let mut bytes = big_to_bytes_le(&e);
    proof {
        if bytes@.len() > 32 {
            lemma_le_value_lower(bytes@);
            let k = (8 * (bytes@.len() - 1)) as nat;
            if k > 256 {
                vstd::arithmetic::power2::lemma_pow2_strictly_increases(256, k);
            }
            assert(pow2((8 * (bytes@.len() - 1)) as nat) * bytes@[bytes@.len() - 1] >= pow2((8 * (
            bytes@.len() - 1)) as nat) * 1) by (nonlinear_arith)
                requires
                    bytes@[bytes@.len() - 1] >= 1,
                    pow2((8 * (bytes@.len() - 1)) as nat) > 0,
            ;
        }
    }
    while bytes.len() < 32
        invariant
            le_value(bytes@) == big_value(*n) % scalar_modulus(),
            bytes@.len() <= 32,
        decreases 32 - bytes@.len(),
    {
        let ghost prev = bytes@;
        bytes.push(0u8);
        proof {
            assert(bytes@ =~= prev + seq![0u8]);
            lemma_le_value_append(prev, seq![0u8]);
            assert(le_value(Seq::<u8>::empty()) == 0);
            assert(seq![0u8].skip(1) =~= Seq::<u8>::empty());
            assert(le_value(seq![0u8]) == 0 + 256 * le_value(seq![0u8].skip(1)));
            assert(le_value(seq![0u8]) == 0);
            assert(le_value(bytes@) == le_value(prev) + pow2(8 * prev.len()) * 0);
            assert(le_value(bytes@) == le_value(prev));
        }
    }
    Fr { bytes }
}

/// Reduce a base-field element directly into the scalar field. This is the
/// lossy map of the native point representation: distinct base-field elements
/// can collide whenever the base modulus exceeds the scalar modulus.
pub fn native(e: &Fq) -> (r: Fr)
    ensures
        r@ == e@ % scalar_modulus(),
        r.wf(),
{
    let n = fe_to_big(e);
    let m = Fr::modulus();
    proof {
        lemma_moduli_bounds();
    }
    let red = big_rem(&n, &m);
    let r = big_to_fe(&red);
    proof {
        lemma_small_mod(e@ % scalar_modulus(), scalar_modulus());
    }
    r
}

/// The parity marker of a base-field element: true exactly when the canonical
/// value is even, read off the low bit of the first canonical byte.
pub fn sign(e: &Fq) -> (r: bool)
    requires
        e.wf(),
    ensures
        r == (e@ % 2 == 0),
{
    let b0 = e.bytes[0];
    proof {
        assert((b0 & 1) == b0 % 2) by (bit_vector);
        lemma_le_value_parity(e.bytes@);
    }
    (b0 & 1) == 0
}

/// The values a sequence of scalar-field elements denotes.
pub open spec fn fr_values(s: Seq<Fr>) -> Seq<nat> {
    s.map_values(|f: Fr| f@)
}

/// Every element of the sequence is canonical.
pub open spec fn all_wf(s: Seq<Fr>) -> bool {
    forall|i: int| 0 <= i < s.len() ==> s[i].wf()
}

impl Clone for Fq {
    fn clone(&self) -> (r: Self)
        ensures
            r.bytes@ == self.bytes@,
    {
        Fq { bytes: clone_bytes(&self.bytes) }
    }
}

impl Clone for Fr {
    fn clone(&self) -> (r: Self)
        ensures
            r.bytes@ == self.bytes@,
    {
        Fr { bytes: clone_bytes(&self.bytes) }
    }
}

/// Copy a byte vector.
pub fn clone_bytes(v: &Vec<u8>) -> (r: Vec<u8>)
    ensures
        r@ == v@,
{
    let mut r: Vec<u8> = Vec::new();
    let mut i: usize = 0;
    while i < v.len()
        invariant
            i <= v@.len(),
            r@ =~= v@.take(i as int),
        decreases v@.len() - i,
    {
        r.push(v[i]);
        i = i + 1;
    }
    proof {
        assert(r@ =~= v@);
    }
    r
}

impl PartialEq for Fq {
    fn eq(&self, other: &Fq) -> bool {
        bytes_eq(&self.bytes, &other.bytes)
    }
}

impl vstd::std_specs::cmp::PartialEqSpecImpl for Fq {
    open spec fn obeys_eq_spec() -> bool {
        true
    }

    open spec fn eq_spec(&self, other: &Fq) -> bool {
        self.bytes@ == other.bytes@
    }
}

impl PartialEq for Fr {
    fn eq(&self, other: &Fr) -> bool {
        bytes_eq(&self.bytes, &other.bytes)
    }
}

impl vstd::std_specs::cmp::PartialEqSpecImpl for Fr {
    open spec fn obeys_eq_spec() -> bool {
        true
    }

    open spec fn eq_spec(&self, other: &Fr) -> bool {
        self.bytes@ == other.bytes@
    }
}

/// Compare two byte vectors for equality.
pub fn bytes_eq(a: &Vec<u8>, b: &Vec<u8>) -> (r: bool)
    ensures
        r == (a@ == b@),
{
    if a.len() != b.len() {
        proof {
            assert(a@ != b@);
        }
        return false;
    }
    let mut i: usize = 0;
    while i < a.len()
        invariant
            i <= a@.len(),
            a@.len() == b@.len(),
            forall|j: int| 0 <= j < i ==> a@[j] == b@[j],
        decreases a@.len() - i,
    {
        if a[i] != b[i] {
            proof {
                assert(a@[i as int] != b@[i as int]);
            }
            return false;
        }
        i = i + 1;
    }
    proof {
        assert(a@ =~= b@);
    }
    true
}

/// Canonicity makes equality of values equality of encodings: two canonical
/// elements with the same value are the same element.
pub proof fn lemma_fq_canonical(a: Fq, b: Fq)
    requires
        a.wf(),
        b.wf(),
        a@ == b@,
    ensures
        a.bytes@ == b.bytes@,
{
    lemma_le_value_injective(a.bytes@, b.bytes@);
}

/// Canonicity for the scalar field.
pub proof fn lemma_fr_canonical(a: Fr, b: Fr)
    requires
        a.wf(),
        b.wf(),
        a@ == b@,
    ensures
        a.bytes@ == b.bytes@,
{
    lemma_le_value_injective(a.bytes@, b.bytes@);
}

} // verus!
