//! Affine points of the elliptic curve `y^2 = x^3 + 3` over the base field,
//! with their canonical wire encoding: the two canonical coordinate encodings
//! in sequence, x first. The identity (point at infinity) has no affine
//! coordinates and no wire encoding; it can never enter a transcript.

use crate::bigint::{big_add, big_eq, big_from_u64, big_mul, big_rem};
use crate::bytes::{copy_range, le_value, lemma_le_value_append};
use crate::field::{base_modulus, fe_to_big, lemma_moduli_bounds, Fq};
use vstd::arithmetic::power2::pow2;
use vstd::prelude::*;

verus! {

/// The curve equation, on canonical coordinate values.
pub open spec fn on_curve(x: nat, y: nat) -> bool {
    (y * y) % base_modulus() == (x * x * x + 3) % base_modulus()
}

/// An affine curve point, or the identity.
#[derive(Debug)]
pub struct Point {
    pub x: Fq,
    pub y: Fq,
    pub infinity: bool,
}

impl Point {
    /// Coordinates canonical; a finite point satisfies the curve equation,
    /// and the identity carries zeroed coordinate slots.
    pub open spec fn wf(&self) -> bool {
        &&& self.x.wf()
        &&& self.y.wf()
        &&& (self.infinity ==> self.x@ == 0 && self.y@ == 0)
        &&& (!self.infinity ==> on_curve(self.x@, self.y@))
    }

    /// The identity element.
    pub fn identity() -> (r: Point)
        ensures
            r.infinity,
            r.wf(),
    {
        proof {
            lemma_moduli_bounds();
        }
        Point { x: zero_coordinate(), y: zero_coordinate(), infinity: true }
    }

    /// Whether this is the identity.
    pub fn is_identity(&self) -> (r: bool)
        ensures
            r == self.infinity,
    {
        self.infinity
    }

    /// Construct a finite point from affine coordinates, verifying the curve
    /// equation; exactly the coordinate pairs on the curve are accepted.
    pub fn from_xy(x: Fq, y: Fq) -> (r: Option<Point>)
        requires
            x.wf(),
            y.wf(),
        ensures
            r is Some <==> on_curve(x@, y@),
            (r matches Some(p) ==> p.x.bytes@ == x.bytes@ && p.y.bytes@ == y.bytes@
                && !p.infinity && p.wf()),
    {
        if check_on_curve(&x, &y) {
            Some(Point { x, y, infinity: false })
        } else {
            None
        }
    }

    /// The affine coordinates; the identity has none.
    pub fn coordinates(&self) -> (r: Option<(Fq, Fq)>)
        ensures
            r is Some <==> !self.infinity,
            (r matches Some(c) ==> c.0.bytes@ == self.x.bytes@ && c.1.bytes@ == self.y.bytes@),
    {
        if self.infinity {
            None
        } else {
            Some((self.x.clone(), self.y.clone()))
        }
    }
}

impl Clone for Point {
    fn clone(&self) -> (r: Self)
        ensures
            r.x.bytes@ == self.x.bytes@,
            r.y.bytes@ == self.y.bytes@,
            r.infinity == self.infinity,
    {
        Point { x: self.x.clone(), y: self.y.clone(), infinity: self.infinity }
    }
}

impl PartialEq for Point {
    fn eq(&self, other: &Point) -> bool {
        self.x == other.x && self.y == other.y && self.infinity == other.infinity
    }
}

impl vstd::std_specs::cmp::PartialEqSpecImpl for Point {
    open spec fn obeys_eq_spec() -> bool {
        true
    }

    open spec fn eq_spec(&self, other: &Point) -> bool {
        self.x.bytes@ == other.x.bytes@ && self.y.bytes@ == other.y.bytes@ && self.infinity
            == other.infinity
    }
}

/// The coordinate holding zero.
fn zero_coordinate() -> (r: Fq)
    ensures
        r@ == 0,
        r.wf(),
{
    proof {
        lemma_moduli_bounds();
    }
    let mut bytes: Vec<u8> = Vec::new();
    while bytes.len() < 32
        invariant
            le_value(bytes@) == 0,
            bytes@.len() <= 32,
        decreases 32 - bytes@.len(),
    {
        let ghost prev = bytes@;
        bytes.push(0u8);
        proof {
            assert(bytes@ =~= prev + seq![0u8]);
            lemma_le_value_append(prev, seq![0u8]);
            assert(seq![0u8].skip(1) =~= Seq::<u8>::empty());
            assert(le_value(seq![0u8]) == 0 + 256 * le_value(seq![0u8].skip(1)));
            assert(le_value(bytes@) == le_value(prev) + pow2(8 * prev.len()) * 0);
        }
    }
    Fq { bytes }
}

/// Evaluate the curve equation on two canonical coordinates.
fn check_on_curve(x: &Fq, y: &Fq) -> (r: bool)
    ensures
        r == on_curve(x@, y@),
{
    proof {
        lemma_moduli_bounds();
    }
    let q = Fq::modulus();
    let xb = fe_to_big(x);
    let yb = fe_to_big(y);
    let y2 = big_mul(&yb, &yb);
    let x2 = big_mul(&xb, &xb);
    let x3 = big_mul(&x2, &xb);
    let three = big_from_u64(3);
    let rhs = big_add(&x3, &three);
    let lhs_red = big_rem(&y2, &q);
    let rhs_red = big_rem(&rhs, &q);
    big_eq(&lhs_red, &rhs_red)
}

/// The wire encoding of a finite point: x bytes then y bytes.
pub open spec fn point_bytes(p: Point) -> Seq<u8> {
    p.x.bytes@ + p.y.bytes@
}

/// What a wire window denotes: the coordinate values, provided the window is
/// 64 bytes, both halves are canonical, and the pair lies on the curve.
pub open spec fn parse_point(w: Seq<u8>) -> Option<(nat, nat)> {
    let xv = le_value(w.subrange(0, 32));
    let yv = le_value(w.subrange(32, 64));
    if w.len() == 64 && xv < base_modulus() && yv < base_modulus() && on_curve(xv, yv) {
        Some((xv, yv))
    } else {
        None
    }
}

/// Serialize a finite point to its wire encoding.
pub fn encode_point(p: &Point) -> (r: Vec<u8>)
    requires
        p.wf(),
        !p.infinity,
    ensures
        r@ == point_bytes(*p),
{
    let mut out = crate::field::clone_bytes(&p.x.bytes);
    crate::bytes::append_bytes(&mut out, p.y.as_bytes());
    out
}

/// Deserialize a 64-byte wire window; exactly the windows that
/// `parse_point` accepts decode, and to the point it denotes.
pub fn decode_point(w: &Vec<u8>) -> (r: Option<Point>)
    requires
        w@.len() == 64,
    ensures
        r is Some <==> parse_point(w@) is Some,
        (r matches Some(p) ==> p.wf() && !p.infinity && p.x.bytes@ == w@.subrange(0, 32)
            && p.y.bytes@ == w@.subrange(32, 64)),
    {
    let xb = copy_range(w, 0, 32);
    let yb = copy_range(w, 32, 32);
    let x = match Fq::from_bytes(xb) {
        Some(x) => x,
        None => { return None; },
    };
    let y = match Fq::from_bytes(yb) {
        Some(y) => y,
        None => { return None; },
    };
    Point::from_xy(x, y)
}

/// Round-trip determinism for the point codec: the wire bytes written for a
/// well-formed finite point parse back to exactly its coordinate values, so a
/// reader fed a writer's bytes recovers the very point that was written.
pub proof fn lemma_point_round_trip(p: Point)
    requires
        p.wf(),
        !p.infinity,
    ensures
        parse_point(point_bytes(p)) == Some((p.x@, p.y@)),
{
    let w = point_bytes(p);
    assert(w.subrange(0, 32) =~= p.x.bytes@);
    assert(w.subrange(32, 64) =~= p.y.bytes@);
}

} // verus!
