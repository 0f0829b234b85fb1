//! The dual transcript objects. A `PoseidonWrite` absorbs every point and
//! scalar into its sponge and appends the canonical wire bytes to its output
//! buffer; a `PoseidonRead` replays the same bytes, decodes them, and absorbs
//! the decoded values identically. Every absorption is preceded by a
//! domain-separation marker naming the kind of operation, so the two sides
//! provably walk the same sponge trajectory and squeeze equal challenges.

use crate::bytes::{append_bytes, copy_range, le_value};
use crate::curve::{decode_point, encode_point, parse_point, point_bytes, Point};
use crate::field::{all_wf, fr_values, native, scalar_modulus, sign, Fq, Fr};
use crate::limbs::{decompose, limbs_of};
use crate::sponge::{absorb_one, absorb_seq, squeeze_state, Sponge};
use core::marker::PhantomData;
use vstd::prelude::*;

verus! {

/// The failures a transcript reports to its caller.
#[derive(Clone, Copy, Debug, PartialEq, Eq, Structural)]
pub enum Error {
    /// The identity was handed to a point operation; rejected before any
    /// state mutation.
    PointAtInfinity,
    /// Bytes that do not decode to a finite point of the curve.
    InvalidPointEncoding,
    /// Bytes that do not decode to a canonical scalar.
    InvalidScalarEncoding,
    /// Fewer bytes left in the source than one canonical encoding needs.
    StreamExhausted,
}

/// The domain-separation marker absorbed before a point encoding.
pub open spec fn prefix_point() -> nat {
    1
}

/// The marker absorbed before a scalar.
pub open spec fn prefix_scalar() -> nat {
    2
}

/// The marker absorbed before a challenge is squeezed.
pub open spec fn prefix_challenge() -> nat {
    3
}

/// The sponge state after a point absorption: the point marker, then the
/// point's encoding.
pub open spec fn point_absorbed(s: nat, enc: Seq<nat>, r_f: nat, r_p: nat) -> nat {
    absorb_seq(absorb_one(s, prefix_point(), r_f, r_p), enc, r_f, r_p)
}

/// The sponge state after a scalar absorption: the scalar marker, then the
/// value.
pub open spec fn scalar_absorbed(s: nat, v: nat, r_f: nat, r_p: nat) -> nat {
    absorb_one(absorb_one(s, prefix_scalar(), r_f, r_p), v, r_f, r_p)
}

/// The sponge state after a challenge squeeze: the challenge marker, then a
/// squeeze.
pub open spec fn challenge_squeezed(s: nat, r_f: nat, r_p: nat) -> nat {
    squeeze_state(absorb_one(s, prefix_challenge(), r_f, r_p), r_f, r_p)
}

/// The parity marker encoded after the limbs: one for an even y coordinate,
/// zero for an odd one.
pub open spec fn parity_value(y: nat) -> nat {
    if y % 2 == 0 {
        1
    } else {
        0
    }
}

/// A strategy for turning a point's base-field coordinates into scalar-field
/// elements the sponge can absorb.
pub trait PointRepresentation: Sized {
    /// The scalar values a finite point is encoded to.
    spec fn spec_encode(p: Point) -> Seq<nat>;

    /// Encode a point for absorption; fails exactly on the identity, which
    /// has no coordinates.
    fn encode(p: &Point) -> (r: Result<Vec<Fr>, Error>)
        requires
            p.wf(),
        ensures
            r is Ok <==> !p.infinity,
            (r matches Ok(v) ==> fr_values(v@) == Self::spec_encode(*p) && all_wf(v@)),
            (r matches Err(e) ==> e == Error::PointAtInfinity),
    ;

    /// The encoding as a function of the coordinate values alone.
    spec fn spec_encode_values(x: nat, y: nat) -> Seq<nat>;

    /// Law: the encoding of a finite point reads only its coordinate values,
    /// so a decoded copy of a point absorbs exactly as the original.
    proof fn lemma_encode_values(p: Point)
        requires
            !p.infinity,
        ensures
            Self::spec_encode(p) == Self::spec_encode_values(p.x@, p.y@),
    ;

    /// The affine coordinates of the point, or the identity failure.
    fn xy(p: &Point) -> (r: Result<(Fq, Fq), Error>)
        requires
            p.wf(),
        ensures
            r is Ok <==> !p.infinity,
            (r matches Ok(c) ==> c.0.bytes@ == p.x.bytes@ && c.1.bytes@ == p.y.bytes@),
            (r matches Err(e) ==> e == Error::PointAtInfinity),
    {
        match p.coordinates() {
            Some(c) => Ok(c),
            None => Err(Error::PointAtInfinity),
        }
    }
}

/// Lossless strategy: the x coordinate split into `NUMBER_OF_LIMBS` limbs of
/// `BITLEN` bits each, least significant first, followed by the parity marker
/// of the y coordinate. Every emitted element stays below `2^BITLEN`, so
/// nothing is reduced away when the limbs cover the base modulus and a limb
/// fits the scalar field.
pub struct LimbRepresentation<const NUMBER_OF_LIMBS: usize, const BITLEN: usize>;

impl<const NUMBER_OF_LIMBS: usize, const BITLEN: usize> PointRepresentation for LimbRepresentation<
    NUMBER_OF_LIMBS,
    BITLEN,
> {
    open spec fn spec_encode(p: Point) -> Seq<nat> {
        limbs_of(p.x@, NUMBER_OF_LIMBS as nat, BITLEN as nat).push(parity_value(p.y@))
    }

    open spec fn spec_encode_values(x: nat, y: nat) -> Seq<nat> {
        limbs_of(x, NUMBER_OF_LIMBS as nat, BITLEN as nat).push(parity_value(y))
    }

    proof fn lemma_encode_values(p: Point) {
    }

    fn encode(p: &Point) -> (r: Result<Vec<Fr>, Error>) {
        let c = match Self::xy(p) {
            Ok(c) => c,
            Err(e) => {
                return Err(e);
            },
        };
        let (x, y) = c;
        let mut encoded = decompose(&x, NUMBER_OF_LIMBS, BITLEN);
        let parity = if sign(&y) {
            Fr::one()
        } else {
            Fr::zero()
        };
        let ghost before = encoded@;
        encoded.push(parity);
        proof {
            assert(encoded@ =~= before.push(parity));
            assert(fr_values(encoded@) =~= fr_values(before).push(parity@));
        }
        Ok(encoded)
    }
}

/// Lossy strategy: each coordinate reduced directly into the scalar field.
/// Collision-free only when the base modulus does not exceed the scalar
/// modulus; here it does, so distinct points can absorb identically. Kept for
/// wire compatibility; use at your own risk.
pub struct NativeRepresentation;

impl PointRepresentation for NativeRepresentation {
    open spec fn spec_encode(p: Point) -> Seq<nat> {
        seq![p.x@ % scalar_modulus(), p.y@ % scalar_modulus()]
    }

    open spec fn spec_encode_values(x: nat, y: nat) -> Seq<nat> {
        seq![x % scalar_modulus(), y % scalar_modulus()]
    }

    proof fn lemma_encode_values(p: Point) {
    }

    fn encode(p: &Point) -> (r: Result<Vec<Fr>, Error>) {
        let c = match Self::xy(p) {
            Ok(c) => c,
            Err(e) => {
                return Err(e);
            },
        };
        let (x, y) = c;
        let mut encoded: Vec<Fr> = Vec::new();
        encoded.push(native(&x));
        encoded.push(native(&y));
        proof {
            assert(fr_values(encoded@) =~= Self::spec_encode(*p));
        }
        Ok(encoded)
    }
}

/// A challenge: one raw sponge output, exposed as a usable scalar. Immutable
/// after construction.
pub struct Challenge {
    pub inner: Fr,
}

impl Challenge {
    /// Canonical payload.
    pub open spec fn wf(&self) -> bool {
        self.inner.wf()
    }

    /// Wrap a raw sponge output.
    pub fn new(scalar: &Fr) -> (r: Challenge)
        ensures
            r.inner.bytes@ == scalar.bytes@,
    {
        Challenge { inner: scalar.clone() }
    }

    /// The challenge as a scalar for protocol logic.
    pub fn get_scalar(&self) -> (r: Fr)
        ensures
            r.bytes@ == self.inner.bytes@,
    {
        self.inner.clone()
    }
}

/// The reading transcript: replays a writer's bytes from an input buffer,
/// absorbing every decoded value exactly as the writer absorbed the original.
pub struct PoseidonRead<Z: PointRepresentation> {
    pub state: Sponge,
    pub reader: Vec<u8>,
    pub pos: usize,
    pub marker: PhantomData<Z>,
}

impl<Z: PointRepresentation> PoseidonRead<Z> {
    /// The sponge is canonical and the cursor inside the buffer.
    pub open spec fn wf(&self) -> bool {
        self.state.wf() && self.pos <= self.reader@.len()
    }

    /// Initialize a transcript over an input buffer, with the sponge's round
    /// parameters.
    pub fn init(reader: Vec<u8>, r_f: usize, r_p: usize) -> (r: Self)
        ensures
            r.wf(),
            r.state.state@ == 0,
            r.state.trace@ == Seq::<nat>::empty(),
            r.state.r_f == r_f,
            r.state.r_p == r_p,
            r.reader@ == reader@,
            r.pos == 0,
    {
        PoseidonRead { state: Sponge::new(r_f, r_p), reader, pos: 0, marker: PhantomData }
    }

    /// Absorb a point under the point marker; the identity is rejected with
    /// the sponge untouched.
    pub fn common_point(&mut self, point: &Point) -> (r: Result<(), Error>)
        requires
            old(self).wf(),
            point.wf(),
        ensures
            final(self).wf(),
            final(self).reader@ == old(self).reader@,
            final(self).pos == old(self).pos,
            final(self).state.r_f == old(self).state.r_f,
            final(self).state.r_p == old(self).state.r_p,
            r is Ok <==> !point.infinity,
            point.infinity ==> r == Err::<(), Error>(Error::PointAtInfinity) && final(self).state.state@ == old(self).state.state@ && final(self).state.trace@ == old(self).state.trace@,
            !point.infinity ==> final(self).state.state@ == point_absorbed(
                old(self).state.state@,
                Z::spec_encode(*point),
                old(self).state.r_f as nat,
                old(self).state.r_p as nat,
            ) && final(self).state.trace@ == old(self).state.trace@ + seq![prefix_point()]
                + Z::spec_encode(*point),
    {
        common_point_impl::<Z>(&mut self.state, point)
    }

    /// Absorb a scalar under the scalar marker.
    pub fn common_scalar(&mut self, scalar: &Fr) -> (r: Result<(), Error>)
        requires
            old(self).wf(),
            scalar.wf(),
        ensures
            final(self).wf(),
            final(self).reader@ == old(self).reader@,
            final(self).pos == old(self).pos,
            final(self).state.r_f == old(self).state.r_f,
            final(self).state.r_p == old(self).state.r_p,
            r == Ok::<(), Error>(()),
            final(self).state.state@ == scalar_absorbed(
                old(self).state.state@,
                scalar@,
                old(self).state.r_f as nat,
                old(self).state.r_p as nat,
            ),
            final(self).state.trace@ == old(self).state.trace@ + seq![prefix_scalar(), scalar@],
    {
        common_scalar_impl(&mut self.state, scalar)
    }

    /// Read one point encoding from the buffer, decode it, absorb it, and
    /// return it. Fails on a short buffer with the sponge and cursor
    /// untouched, and on bytes that denote no finite curve point with the
    /// sponge untouched.
    pub fn read_point(&mut self) -> (r: Result<Point, Error>)
        requires
            old(self).wf(),
        ensures
            final(self).wf(),
            final(self).reader@ == old(self).reader@,
            final(self).state.r_f == old(self).state.r_f,
            final(self).state.r_p == old(self).state.r_p,
            old(self).pos + 64 > old(self).reader@.len() ==> r == Err::<Point, Error>(
                Error::StreamExhausted,
            ) && final(self).pos == old(self).pos && final(self).state.state@ == old(self).state.state@ && final(self).state.trace@ == old(self).state.trace@,
            old(self).pos + 64 <= old(self).reader@.len() ==> final(self).pos == old(self).pos
                + 64 && (r is Ok <==> parse_point(
                old(self).reader@.subrange(old(self).pos as int, old(self).pos + 64),
            ) is Some),
            (r matches Err(e) ==> final(self).state.state@ == old(self).state.state@ && final(self).state.trace@ == old(self).state.trace@ && (e == Error::StreamExhausted || e
                == Error::InvalidPointEncoding)),
            (r matches Ok(p) ==> p.wf() && !p.infinity && p.x.bytes@ == old(self).reader@.subrange(old(self).pos as int, old(self).pos + 32) && p.y.bytes@ == old(self).reader@.subrange(old(self).pos + 32, old(self).pos + 64) && final(self).state.state@ == point_absorbed(
                old(self).state.state@,
                Z::spec_encode(p),
                old(self).state.r_f as nat,
                old(self).state.r_p as nat,
            ) && final(self).state.trace@ == old(self).state.trace@ + seq![prefix_point()]
                + Z::spec_encode(p)),
    {
        if self.reader.len() - self.pos < 64 {
            return Err(Error::StreamExhausted);
        }
        let w = copy_range(&self.reader, self.pos, 64);
        self.pos = self.pos + 64;
        proof {
            assert(w@.subrange(0, 32) =~= old(self).reader@.subrange(
                old(self).pos as int,
                old(self).pos + 32,
            ));
            assert(w@.subrange(32, 64) =~= old(self).reader@.subrange(
                old(self).pos + 32,
                old(self).pos + 64,
            ));
        }
        let point = match decode_point(&w) {
            Some(p) => p,
            None => {
                return Err(Error::InvalidPointEncoding);
            },
        };
        match self.common_point(&point) {
            Ok(()) => Ok(point),
            Err(e) => Err(e),
        }
    }

    /// Read one scalar encoding from the buffer, decode it, absorb it, and
    /// return it.
    pub fn read_scalar(&mut self) -> (r: Result<Fr, Error>)
        requires
            old(self).wf(),
        ensures
            final(self).wf(),
            final(self).reader@ == old(self).reader@,
            final(self).state.r_f == old(self).state.r_f,
            final(self).state.r_p == old(self).state.r_p,
            old(self).pos + 32 > old(self).reader@.len() ==> r == Err::<Fr, Error>(
                Error::StreamExhausted,
            ) && final(self).pos == old(self).pos,
            old(self).pos + 32 <= old(self).reader@.len() ==> final(self).pos == old(self).pos
                + 32 && (r is Ok <==> le_value(
                old(self).reader@.subrange(old(self).pos as int, old(self).pos + 32),
            ) < scalar_modulus()) && (r is Err ==> r == Err::<Fr, Error>(
                Error::InvalidScalarEncoding,
            )),
            (r matches Err(e) ==> final(self).state.state@ == old(self).state.state@ && final(self).state.trace@ == old(self).state.trace@),
            (r matches Ok(s) ==> s.wf() && s.bytes@ == old(self).reader@.subrange(
                old(self).pos as int,
                old(self).pos + 32,
            ) && final(self).state.state@ == scalar_absorbed(
                old(self).state.state@,
                s@,
                old(self).state.r_f as nat,
                old(self).state.r_p as nat,
            ) && final(self).state.trace@ == old(self).state.trace@ + seq![prefix_scalar(), s@]),
    {
        if self.reader.len() - self.pos < 32 {
            return Err(Error::StreamExhausted);
        }
        let w = copy_range(&self.reader, self.pos, 32);
        self.pos = self.pos + 32;
        let scalar = match Fr::from_bytes(w) {
            Some(s) => s,
            None => {
                return Err(Error::InvalidScalarEncoding);
            },
        };
        match self.common_scalar(&scalar) {
            Ok(()) => Ok(scalar),
            Err(e) => Err(e),
        }
    }

    /// Squeeze a challenge: absorb the challenge marker, advance the sponge,
    /// and emit its new state. Each call advances the state further, so
    /// repeated squeezes are distinct operations, never replays.
    pub fn squeeze_challenge(&mut self) -> (r: Challenge)
        requires
            old(self).wf(),
        ensures
            final(self).wf(),
            final(self).reader@ == old(self).reader@,
            final(self).pos == old(self).pos,
            final(self).state.r_f == old(self).state.r_f,
            final(self).state.r_p == old(self).state.r_p,
            final(self).state.state@ == challenge_squeezed(
                old(self).state.state@,
                old(self).state.r_f as nat,
                old(self).state.r_p as nat,
            ),
            final(self).state.trace@ == old(self).state.trace@.push(prefix_challenge()),
            r.inner@ == final(self).state.state@,
            r.wf(),
    {
        squeeze_challenge_impl(&mut self.state)
    }
}

/// The writing transcript: absorbs what it is handed and appends the
/// canonical wire bytes to its output buffer, released at `finalize`.
pub struct PoseidonWrite<Z: PointRepresentation> {
    pub state: Sponge,
    pub writer: Vec<u8>,
    pub marker: PhantomData<Z>,
}

impl<Z: PointRepresentation> PoseidonWrite<Z> {
    /// The sponge is canonical.
    pub open spec fn wf(&self) -> bool {
        self.state.wf()
    }

    /// Initialize a transcript over an output buffer, with the sponge's round
    /// parameters.
    pub fn init(writer: Vec<u8>, r_f: usize, r_p: usize) -> (r: Self)
        ensures
            r.wf(),
            r.state.state@ == 0,
            r.state.trace@ == Seq::<nat>::empty(),
            r.state.r_f == r_f,
            r.state.r_p == r_p,
            r.writer@ == writer@,
    {
        PoseidonWrite { state: Sponge::new(r_f, r_p), writer, marker: PhantomData }
    }

    /// Conclude the interaction and release the output buffer.
    pub fn finalize(self) -> (r: Vec<u8>)
        ensures
            r@ == self.writer@,
    {
        self.writer
    }

    /// Absorb a point under the point marker; the identity is rejected with
    /// the sponge untouched.
    pub fn common_point(&mut self, point: &Point) -> (r: Result<(), Error>)
        requires
            old(self).wf(),
            point.wf(),
        ensures
            final(self).wf(),
            final(self).writer@ == old(self).writer@,
            final(self).state.r_f == old(self).state.r_f,
            final(self).state.r_p == old(self).state.r_p,
            r is Ok <==> !point.infinity,
            point.infinity ==> r == Err::<(), Error>(Error::PointAtInfinity) && final(self).state.state@ == old(self).state.state@ && final(self).state.trace@ == old(self).state.trace@,
            !point.infinity ==> final(self).state.state@ == point_absorbed(
                old(self).state.state@,
                Z::spec_encode(*point),
                old(self).state.r_f as nat,
                old(self).state.r_p as nat,
            ) && final(self).state.trace@ == old(self).state.trace@ + seq![prefix_point()]
                + Z::spec_encode(*point),
    {
        common_point_impl::<Z>(&mut self.state, point)
    }

    /// Absorb a scalar under the scalar marker.
    pub fn common_scalar(&mut self, scalar: &Fr) -> (r: Result<(), Error>)
        requires
            old(self).wf(),
            scalar.wf(),
        ensures
            final(self).wf(),
            final(self).writer@ == old(self).writer@,
            final(self).state.r_f == old(self).state.r_f,
            final(self).state.r_p == old(self).state.r_p,
            r == Ok::<(), Error>(()),
            final(self).state.state@ == scalar_absorbed(
                old(self).state.state@,
                scalar@,
                old(self).state.r_f as nat,
                old(self).state.r_p as nat,
            ),
            final(self).state.trace@ == old(self).state.trace@ + seq![prefix_scalar(), scalar@],
    {
        common_scalar_impl(&mut self.state, scalar)
    }

    /// Absorb a point, then append its wire encoding to the output buffer;
    /// succeeds exactly on finite points, and the identity changes nothing.
    pub fn write_point(&mut self, point: &Point) -> (r: Result<(), Error>)
        requires
            old(self).wf(),
            point.wf(),
        ensures
            final(self).wf(),
            final(self).state.r_f == old(self).state.r_f,
            final(self).state.r_p == old(self).state.r_p,
            r is Ok <==> !point.infinity,
            point.infinity ==> r == Err::<(), Error>(Error::PointAtInfinity) && final(self).state.state@ == old(self).state.state@ && final(self).state.trace@ == old(self).state.trace@ && final(self).writer@ == old(self).writer@,
            !point.infinity ==> final(self).state.state@ == point_absorbed(
                old(self).state.state@,
                Z::spec_encode(*point),
                old(self).state.r_f as nat,
                old(self).state.r_p as nat,
            ) && final(self).state.trace@ == old(self).state.trace@ + seq![prefix_point()]
                + Z::spec_encode(*point) && final(self).writer@ == old(self).writer@ + point_bytes(
                *point,
            ),
    {
        match self.common_point(point) {
            Ok(()) => (),
            Err(e) => {
                return Err(e);
            },
        }
        let bytes = encode_point(point);
        append_bytes(&mut self.writer, &bytes);
        Ok(())
    }

    /// Absorb a scalar, then append its canonical bytes to the output buffer.
    pub fn write_scalar(&mut self, scalar: &Fr) -> (r: Result<(), Error>)
        requires
            old(self).wf(),
            scalar.wf(),
        ensures
            final(self).wf(),
            final(self).state.r_f == old(self).state.r_f,
            final(self).state.r_p == old(self).state.r_p,
            r == Ok::<(), Error>(()),
            final(self).state.state@ == scalar_absorbed(
                old(self).state.state@,
                scalar@,
                old(self).state.r_f as nat,
                old(self).state.r_p as nat,
            ),
            final(self).state.trace@ == old(self).state.trace@ + seq![prefix_scalar(), scalar@],
            final(self).writer@ == old(self).writer@ + scalar.bytes@,
    {
        match self.common_scalar(scalar) {
            Ok(()) => (),
            Err(e) => {
                return Err(e);
            },
        }
        append_bytes(&mut self.writer, scalar.as_bytes());
        Ok(())
    }

    /// Squeeze a challenge, advancing the sponge.
    pub fn squeeze_challenge(&mut self) -> (r: Challenge)
        requires
            old(self).wf(),
        ensures
            final(self).wf(),
            final(self).writer@ == old(self).writer@,
            final(self).state.r_f == old(self).state.r_f,
            final(self).state.r_p == old(self).state.r_p,
            final(self).state.state@ == challenge_squeezed(
                old(self).state.state@,
                old(self).state.r_f as nat,
                old(self).state.r_p as nat,
            ),
            final(self).state.trace@ == old(self).state.trace@.push(prefix_challenge()),
            r.inner@ == final(self).state.state@,
            r.wf(),
    {
        squeeze_challenge_impl(&mut self.state)
    }
}

/// The shared point absorption both transcript kinds funnel through: encode
/// first, so a failure leaves the sponge untouched, then absorb the marker
/// and the encoding.
fn common_point_impl<Z: PointRepresentation>(state: &mut Sponge, point: &Point) -> (r: Result<
    (),
    Error,
>)
    requires
        old(state).wf(),
        point.wf(),
    ensures
        final(state).wf(),
        final(state).r_f == old(state).r_f,
        final(state).r_p == old(state).r_p,
        r is Ok <==> !point.infinity,
        point.infinity ==> r == Err::<(), Error>(Error::PointAtInfinity) && final(state).state@
            == old(state).state@ && final(state).trace@ == old(state).trace@,
        !point.infinity ==> final(state).state@ == point_absorbed(
            old(state).state@,
            Z::spec_encode(*point),
            old(state).r_f as nat,
            old(state).r_p as nat,
        ) && final(state).trace@ == old(state).trace@ + seq![prefix_point()] + Z::spec_encode(
            *point,
        ),
{
    let encoded = match Z::encode(point) {
        Ok(v) => v,
        Err(e) => {
            return Err(e);
        },
    };
    let ghost t0 = state.trace@;
    let pre = Fr::from_u64(1);
    state.absorb(&pre);
    state.absorb_all(&encoded);
    proof {
        assert(state.trace@ =~= t0 + seq![prefix_point()] + Z::spec_encode(*point));
    }
    Ok(())
}

/// The shared scalar absorption: the scalar marker, then the value.
fn common_scalar_impl(state: &mut Sponge, scalar: &Fr) -> (r: Result<(), Error>)
    requires
        old(state).wf(),
        scalar.wf(),
    ensures
        final(state).wf(),
        final(state).r_f == old(state).r_f,
        final(state).r_p == old(state).r_p,
        r == Ok::<(), Error>(()),
        final(state).state@ == scalar_absorbed(
            old(state).state@,
            scalar@,
            old(state).r_f as nat,
            old(state).r_p as nat,
        ),
        final(state).trace@ == old(state).trace@ + seq![prefix_scalar(), scalar@],
{
    let ghost t0 = state.trace@;
    let pre = Fr::from_u64(2);
    state.absorb(&pre);
    state.absorb(scalar);
    proof {
        assert(state.trace@ =~= t0 + seq![prefix_scalar(), scalar@]);
    }
    Ok(())
}

/// The shared challenge squeeze: the challenge marker, then one squeeze.
fn squeeze_challenge_impl(state: &mut Sponge) -> (r: Challenge)
    requires
        old(state).wf(),
    ensures
        final(state).wf(),
        final(state).r_f == old(state).r_f,
        final(state).r_p == old(state).r_p,
        final(state).state@ == challenge_squeezed(
            old(state).state@,
            old(state).r_f as nat,
            old(state).r_p as nat,
        ),
        final(state).trace@ == old(state).trace@.push(prefix_challenge()),
        r.inner@ == final(state).state@,
        r.wf(),
{
    let pre = Fr::from_u64(3);
    state.absorb(&pre);
    let out = state.squeeze();
    Challenge::new(&out)
}

/// Round-trip determinism, one point operation: the wire window a writer
/// appends for a finite point parses back to exactly its coordinate values,
/// and any decoded point carrying those coordinates absorbs identically under
/// every encoding strategy; a reader and a writer with equal sponge states
/// are therefore again equal after the pair of operations, and their
/// challenges, being functions of the state alone, coincide.
pub proof fn lemma_round_trip_point_step<Z: PointRepresentation>(p1: Point, p2: Point)
    requires
        p1.wf(),
        !p1.infinity,
        p2.x.bytes@ == point_bytes(p1).subrange(0, 32),
        p2.y.bytes@ == point_bytes(p1).subrange(32, 64),
        !p2.infinity,
    ensures
        parse_point(point_bytes(p1)) == Some((p1.x@, p1.y@)),
        Z::spec_encode(p2) == Z::spec_encode(p1),
        forall|s: nat, rf: nat, rp: nat|
            point_absorbed(s, Z::spec_encode(p2), rf, rp) == #[trigger] point_absorbed(
                s,
                Z::spec_encode(p1),
                rf,
                rp,
            ),
{
    crate::curve::lemma_point_round_trip(p1);
    assert(point_bytes(p1).subrange(0, 32) =~= p1.x.bytes@);
    assert(point_bytes(p1).subrange(32, 64) =~= p1.y.bytes@);
    Z::lemma_encode_values(p1);
    Z::lemma_encode_values(p2);
}

/// One transcript operation, recorded by the canonical bytes of the value it
/// carries. Ghost data: the vocabulary in which whole call sequences are
/// stated.
pub enum TranscriptOp {
    OpPoint { xb: Seq<u8>, yb: Seq<u8> },
    OpScalar { sb: Seq<u8> },
    OpSqueeze,
}

/// A well-formed operation: the payload is a canonical encoding of a legal
/// value, as the writer's preconditions guarantee of everything it emits.
pub open spec fn op_wf(op: TranscriptOp) -> bool {
    match op {
        TranscriptOp::OpPoint { xb, yb } => xb.len() == 32 && yb.len() == 32 && le_value(xb)
            < crate::field::base_modulus() && le_value(yb) < crate::field::base_modulus()
            && crate::curve::on_curve(le_value(xb), le_value(yb)),
        TranscriptOp::OpScalar { sb } => sb.len() == 32 && le_value(sb) < scalar_modulus(),
        TranscriptOp::OpSqueeze => true,
    }
}

/// The bytes one operation appends to the wire.
pub open spec fn op_bytes(op: TranscriptOp) -> Seq<u8> {
    match op {
        TranscriptOp::OpPoint { xb, yb } => xb + yb,
        TranscriptOp::OpScalar { sb } => sb,
        TranscriptOp::OpSqueeze => Seq::empty(),
    }
}

/// The byte stream a writer emits for a whole call sequence: the
/// concatenation of the operations' canonical encodings, in call order, with
/// no separators.
pub open spec fn ops_bytes(ops: Seq<TranscriptOp>) -> Seq<u8>
    decreases ops.len(),
{
    if ops.len() == 0 {
        Seq::empty()
    } else {
        op_bytes(ops[0]) + ops_bytes(ops.skip(1))
    }
}

/// A reader replaying `ops` against `bytes` succeeds step by step: each point
/// window parses back to exactly the written coordinates, each scalar window
/// is byte-identical to the written scalar, and the stream is consumed in the
/// same fixed-width framing the writer used.
pub open spec fn replay_ok(bytes: Seq<u8>, ops: Seq<TranscriptOp>) -> bool
    decreases ops.len(),
{
    if ops.len() == 0 {
        true
    } else {
        match ops[0] {
            TranscriptOp::OpPoint { xb, yb } => bytes.len() >= 64 && parse_point(
                bytes.subrange(0, 64),
            ) == Some((le_value(xb), le_value(yb))) && replay_ok(bytes.skip(64), ops.skip(1)),
            TranscriptOp::OpScalar { sb } => bytes.len() >= 32 && bytes.subrange(0, 32) == sb
                && le_value(sb) < scalar_modulus() && replay_ok(bytes.skip(32), ops.skip(1)),
            TranscriptOp::OpSqueeze => replay_ok(bytes, ops.skip(1)),
        }
    }
}

/// Round-trip determinism over a whole call sequence: for any sequence of
/// point writes, scalar writes and squeezes, feeding the emitted byte stream
/// to a reader that replays the same call pattern decodes every value back
/// equal to what was written, at the writer's framing. Since both sides then
/// absorb identical value sequences, their sponge states — functions of the
/// absorbed values alone — agree after every prefix, and with them every
/// squeezed challenge.
pub proof fn lemma_round_trip_sequence(ops: Seq<TranscriptOp>)
    requires
        forall|i: int| 0 <= i < ops.len() ==> op_wf(#[trigger] ops[i]),
    ensures
        replay_ok(ops_bytes(ops), ops),
    decreases ops.len(),
{
    if ops.len() > 0 {
        let bytes = ops_bytes(ops);
        let rest = ops_bytes(ops.skip(1));
        assert(forall|i: int|
            0 <= i < ops.skip(1).len() ==> op_wf(#[trigger] ops.skip(1)[i]) && ops.skip(1)[i]
                == ops[i + 1]);
        lemma_round_trip_sequence(ops.skip(1));
        match ops[0] {
            TranscriptOp::OpPoint { xb, yb } => {
                assert(bytes == (xb + yb) + rest);
                assert(bytes.subrange(0, 64) =~= xb + yb);
                assert(bytes.subrange(0, 64).subrange(0, 32) =~= xb);
                assert(bytes.subrange(0, 64).subrange(32, 64) =~= yb);
                assert(bytes.skip(64) =~= rest);
            },
            TranscriptOp::OpScalar { sb } => {
                assert(bytes == sb + rest);
                assert(bytes.subrange(0, 32) =~= sb);
                assert(bytes.skip(32) =~= rest);
            },
            TranscriptOp::OpSqueeze => {
                assert(op_bytes(ops[0]) + rest =~= rest);
            },
        }
    }
}

/// Domain separation: from any common sponge history, the extension written
/// by a scalar absorption, by a point absorption under any strategy, and by a
/// challenge squeeze are pairwise distinct, whatever the payloads: each
/// operation kind leads with its own marker, so no payload sequence of one
/// kind can be confused with another kind's.
pub proof fn lemma_domain_separation<Z: PointRepresentation>(t: Seq<nat>, v: nat, p: Point)
    ensures
        t + seq![prefix_scalar(), v] != t + seq![prefix_point()] + Z::spec_encode(p),
        t.push(prefix_challenge()) != t + seq![prefix_scalar(), v],
        t.push(prefix_challenge()) != t + seq![prefix_point()] + Z::spec_encode(p),
{
    let sc = t + seq![prefix_scalar(), v];
    let po = t + seq![prefix_point()] + Z::spec_encode(p);
    let ch = t.push(prefix_challenge());
    assert(sc[t.len() as int] == prefix_scalar());
    assert(po[t.len() as int] == prefix_point());
    assert(ch[t.len() as int] == prefix_challenge());
    assert(sc != po) by {
        if sc == po {
            assert(sc[t.len() as int] == po[t.len() as int]);
        }
    }
    assert(ch != sc) by {
        if ch == sc {
            assert(ch[t.len() as int] == sc[t.len() as int]);
        }
    }
    assert(ch != po) by {
        if ch == po {
            assert(ch[t.len() as int] == po[t.len() as int]);
        }
    }
}

} // verus!
