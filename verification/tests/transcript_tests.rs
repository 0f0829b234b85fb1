use num_bigint::BigUint;
use poseidon_transcript::curve::Point;
use poseidon_transcript::field::{Fq, Fr};
use poseidon_transcript::limbs::decompose;
use poseidon_transcript::transcript::{
    Error, LimbRepresentation, NativeRepresentation, PointRepresentation, PoseidonRead,
    PoseidonWrite,
};

const R_F: usize = 8;
const R_P: usize = 57;

type Limb4 = LimbRepresentation<4, 68>;

fn fq(bytes: Vec<u8>) -> Fq {
    Fq::from_bytes(bytes).unwrap()
}

fn point(x: Vec<u8>, y: Vec<u8>) -> Point {
    Point::from_xy(fq(x), fq(y)).unwrap()
}

fn sample_points() -> Vec<Point> {
    vec![
        point(vec![1, 0, 0, 0, 0, 0, 0, 0, 0, 0, 0, 0, 0, 0, 0, 0, 0, 0, 0, 0, 0, 0, 0, 0, 0, 0, 0, 0, 0, 0, 0, 0], vec![2, 0, 0, 0, 0, 0, 0, 0, 0, 0, 0, 0, 0, 0, 0, 0, 0, 0, 0, 0, 0, 0, 0, 0, 0, 0, 0, 0, 0, 0, 0, 0]),
        point(vec![211, 207, 135, 109, 193, 8, 194, 211, 168, 28, 135, 22, 169, 22, 120, 217, 133, 21, 24, 104, 91, 4, 133, 155, 2, 26, 19, 46, 231, 68, 6, 3], vec![196, 162, 24, 90, 122, 191, 62, 255, 199, 143, 83, 227, 73, 164, 166, 104, 10, 156, 174, 178, 150, 95, 132, 231, 146, 124, 10, 14, 140, 115, 237, 21]),
        point(vec![240, 171, 21, 25, 150, 85, 211, 242, 121, 230, 184, 21, 71, 216, 21, 147, 21, 189, 182, 177, 188, 50, 2, 244, 63, 234, 107, 197, 154, 191, 105, 7], vec![97, 34, 254, 217, 61, 255, 241, 205, 87, 91, 156, 11, 180, 99, 158, 49, 117, 100, 8, 141, 124, 219, 79, 85, 41, 148, 72, 224, 190, 153, 183, 42]),
        point(vec![118, 26, 20, 233, 46, 109, 170, 76, 130, 153, 101, 238, 131, 43, 89, 155, 140, 32, 165, 29, 91, 69, 239, 190, 188, 20, 244, 248, 74, 182, 167, 6], vec![188, 47, 231, 65, 90, 239, 136, 206, 100, 86, 231, 166, 248, 216, 151, 138, 233, 95, 228, 148, 155, 229, 76, 16, 172, 49, 238, 140, 67, 78, 231, 8]),
    ]
}

#[test]
fn test_transcript() {
    let mut writer = PoseidonWrite::<Limb4>::init(vec![], R_F, R_P);
    let s_0 = writer.squeeze_challenge();
    let proof = writer.finalize();

    let mut reader = PoseidonRead::<Limb4>::init(proof, R_F, R_P);
    let s_1 = reader.squeeze_challenge();
    assert_eq!(s_0.get_scalar(), s_1.get_scalar());

    let pts = sample_points();
    let p0 = pts[0].clone();
    let p1 = pts[1].clone();
    let p2 = pts[2].clone();
    let p3 = pts[3].clone();
    let e0 = Fr::from_u64(11);
    let e1 = Fr::from_u64(22);
    let e2 = Fr::from_u64(33);
    let e3 = Fr::from_u64(44);

    let mut writer = PoseidonWrite::<Limb4>::init(vec![], R_F, R_P);
    writer.write_point(&p0).unwrap();
    writer.write_point(&p1).unwrap();
    writer.write_scalar(&e0).unwrap();
    writer.write_scalar(&e1).unwrap();
    writer.write_scalar(&e2).unwrap();
    writer.write_scalar(&e3).unwrap();
    writer.write_point(&p2).unwrap();
    writer.write_point(&p3).unwrap();
    let s_0 = writer.squeeze_challenge();
    let proof = writer.finalize();

    let mut reader = PoseidonRead::<Limb4>::init(proof, R_F, R_P);
    assert_eq!(reader.read_point().unwrap(), p0);
    assert_eq!(reader.read_point().unwrap(), p1);
    assert_eq!(reader.read_scalar().unwrap(), e0);
    assert_eq!(reader.read_scalar().unwrap(), e1);
    assert_eq!(reader.read_scalar().unwrap(), e2);
    assert_eq!(reader.read_scalar().unwrap(), e3);
    assert_eq!(reader.read_point().unwrap(), p2);
    assert_eq!(reader.read_point().unwrap(), p3);
    let s_1 = reader.squeeze_challenge();
    assert_eq!(s_0.get_scalar(), s_1.get_scalar());
}

#[test]
fn squeeze_is_not_idempotent() {
    let mut writer = PoseidonWrite::<Limb4>::init(vec![], R_F, R_P);
    let c0 = writer.squeeze_challenge();
    let c1 = writer.squeeze_challenge();
    assert_ne!(c0.get_scalar(), c1.get_scalar());
}

#[test]
fn identity_rejected_before_state_change() {
    let identity = Point::identity();
    let mut attempted = PoseidonWrite::<Limb4>::init(vec![], R_F, R_P);
    assert_eq!(attempted.write_point(&identity), Err(Error::PointAtInfinity));
    let mut untouched = PoseidonWrite::<Limb4>::init(vec![], R_F, R_P);
    let c_attempted = attempted.squeeze_challenge();
    let c_untouched = untouched.squeeze_challenge();
    assert_eq!(c_attempted.get_scalar(), c_untouched.get_scalar());
    assert_eq!(attempted.finalize(), Vec::<u8>::new());
}

#[test]
fn limb_decomposition_reconstructs() {
    let pts = sample_points();
    let (x, _y) = pts[1].coordinates().unwrap();
    let expected = BigUint::from_bytes_le(x.as_bytes());
    let limbs = decompose(&x, 4, 68);
    let mut reconstructed = BigUint::from(0u64);
    for (i, limb) in limbs.iter().enumerate() {
        let v = BigUint::from_bytes_le(limb.as_bytes());
        reconstructed = reconstructed + (v << (68 * i));
    }
    assert_eq!(reconstructed, expected);
}

#[test]
fn domain_separation_distinguishes_kinds() {
    let pts = sample_points();
    let generator = pts[0].clone();
    let mut as_scalar = PoseidonWrite::<NativeRepresentation>::init(vec![], R_F, R_P);
    as_scalar.common_scalar(&Fr::from_u64(1)).unwrap();
    let c_scalar = as_scalar.squeeze_challenge();
    let mut as_point = PoseidonWrite::<NativeRepresentation>::init(vec![], R_F, R_P);
    as_point.common_point(&generator).unwrap();
    let c_point = as_point.squeeze_challenge();
    assert_ne!(c_scalar.get_scalar(), c_point.get_scalar());
}

#[test]
fn read_scalar_fails_on_short_buffer() {
    let e = Fr::from_u64(5);
    let mut writer = PoseidonWrite::<Limb4>::init(vec![], R_F, R_P);
    writer.write_scalar(&e).unwrap();
    let mut proof = writer.finalize();
    proof.pop();
    let mut reader = PoseidonRead::<Limb4>::init(proof, R_F, R_P);
    assert_eq!(reader.read_scalar(), Err(Error::StreamExhausted));
}

#[test]
fn read_point_fails_on_short_buffer() {
    let mut reader = PoseidonRead::<Limb4>::init(vec![0u8; 63], R_F, R_P);
    assert_eq!(reader.read_point(), Err(Error::StreamExhausted));
}

#[test]
fn non_canonical_scalar_rejected() {
    let mut reader = PoseidonRead::<Limb4>::init(vec![0xffu8; 32], R_F, R_P);
    assert_eq!(reader.read_scalar(), Err(Error::InvalidScalarEncoding));
}

#[test]
fn off_curve_point_rejected() {
    let mut bytes = vec![0u8; 64];
    bytes[0] = 1;
    bytes[32] = 3;
    let mut reader = PoseidonRead::<Limb4>::init(bytes, R_F, R_P);
    assert_eq!(reader.read_point(), Err(Error::InvalidPointEncoding));
}

#[test]
fn parity_marker_follows_y() {
    let pts = sample_points();
    let even_y = Limb4::encode(&pts[0]).unwrap();
    assert_eq!(even_y.len(), 5);
    assert_eq!(even_y[4], Fr::from_u64(1));
    let odd_y = Limb4::encode(&pts[2]).unwrap();
    assert_eq!(odd_y[4], Fr::from_u64(0));
}

#[test]
fn native_encoding_reduces_coordinates() {
    let pts = sample_points();
    let encoded = NativeRepresentation::encode(&pts[0]).unwrap();
    assert_eq!(encoded, vec![Fr::from_u64(1), Fr::from_u64(2)]);
}

#[test]
fn scalar_wire_format_is_canonical_bytes() {
    let e = Fr::from_u64(77);
    let mut writer = PoseidonWrite::<Limb4>::init(vec![], R_F, R_P);
    writer.write_scalar(&e).unwrap();
    assert_eq!(writer.finalize(), e.as_bytes().clone());
}

#[test]
fn from_bytes_rejects_the_modulus() {
    let modulus_bytes = vec![
        1u8, 0, 0, 240, 147, 245, 225, 67, 145, 112, 185, 121, 72, 232, 51, 40, 93, 88, 129, 129,
        182, 69, 80, 184, 41, 160, 49, 225, 114, 78, 100, 48,
    ];
    assert!(Fr::from_bytes(modulus_bytes).is_none());
    assert!(Fr::from_bytes(vec![0u8; 31]).is_none());
}

#[test]
fn identity_has_no_coordinates() {
    let identity = Point::identity();
    assert!(identity.is_identity());
    assert!(identity.coordinates().is_none());
    assert_eq!(Limb4::encode(&identity), Err(Error::PointAtInfinity));
    assert_eq!(NativeRepresentation::encode(&identity), Err(Error::PointAtInfinity));
}

#[test]
fn end_to_end_two_points_four_scalars() {
    let pts = sample_points();
    let scalars = vec![
        Fr::from_u64(3),
        Fr::from_u64(1400),
        Fr::from_u64(99999),
        Fr::from_u64(0),
    ];
    let mut writer = PoseidonWrite::<Limb4>::init(vec![], R_F, R_P);
    writer.write_point(&pts[0]).unwrap();
    writer.write_point(&pts[1]).unwrap();
    for s in &scalars {
        writer.write_scalar(s).unwrap();
    }
    let c_writer = writer.squeeze_challenge();
    let proof = writer.finalize();
    assert_eq!(proof.len(), 2 * 64 + 4 * 32);

    let mut reader = PoseidonRead::<Limb4>::init(proof, R_F, R_P);
    assert_eq!(reader.read_point().unwrap(), pts[0]);
    assert_eq!(reader.read_point().unwrap(), pts[1]);
    for s in &scalars {
        assert_eq!(&reader.read_scalar().unwrap(), s);
    }
    let c_reader = reader.squeeze_challenge();
    assert_eq!(c_writer.get_scalar(), c_reader.get_scalar());
}

#[test]
fn sponge_follows_specified_permutation() {
    let r_f: usize = 2;
    let r_p: usize = 3;
    let modulus = BigUint::from_bytes_le(&[
        1u8, 0, 0, 240, 147, 245, 225, 67, 145, 112, 185, 121, 72, 232, 51, 40, 93, 88, 129, 129,
        182, 69, 80, 184, 41, 160, 49, 225, 114, 78, 100, 48,
    ]);
    let perm = |x: BigUint| -> BigUint {
        let mut cur = x;
        for _ in 0..r_f {
            cur = (&cur * &cur * &cur + 5u64) % &modulus;
        }
        for _ in 0..r_p {
            cur = (&cur * &cur + 7u64) % &modulus;
        }
        cur
    };
    let absorb = |s: BigUint, e: u64| -> BigUint { perm((s + e) % &modulus) };

    // scalar marker 2, payload, challenge marker 3, then one squeeze
    let s1 = absorb(BigUint::from(0u64), 2);
    let s2 = absorb(s1, 9);
    let s3 = absorb(s2, 3);
    let expected = perm(s3);

    let mut writer = PoseidonWrite::<Limb4>::init(vec![], r_f, r_p);
    writer.common_scalar(&Fr::from_u64(9)).unwrap();
    let challenge = writer.squeeze_challenge();
    let produced = BigUint::from_bytes_le(challenge.get_scalar().as_bytes());
    assert_eq!(produced, expected);
}
