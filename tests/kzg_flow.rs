use kzg::algebra::{random_scalars, Scalar};
use kzg::polynomial::Poly;
use kzg::protocol::{
    commitment_phase, create_polynomial, open, prove_multi_evaluations, setup_phase,
    setup_with_secret, verify, verify_multi_evaluations, KzgError, PublicParams, MAX_DEGREE,
};

fn scalars(values: &[u64]) -> Vec<Scalar> {
    values.iter().map(|v| Scalar::from_u64(*v)).collect()
}

fn params(max_degree: usize) -> PublicParams {
    match setup_phase(max_degree) {
        Ok(pp) => pp,
        Err(e) => panic!("setup failed: {:?}", e),
    }
}

#[test]
fn concrete_scenario_degree_two() {
    let pp = params(2);
    let poly = Poly::from_coefficients(&scalars(&[2, 3, 4]));
    let commitment = commitment_phase(&pp.g1, &poly).unwrap();
    let z = Scalar::from_u64(1);
    let (y, proof) = open(&pp.g1, &poly, &z).unwrap();
    assert!(y.equals(&Scalar::from_u64(9)));
    assert!(!y.equals(&Scalar::from_u64(8)));
    assert_eq!(verify(&commitment, &proof, &z, &Scalar::from_u64(9), &pp.g2), Ok(true));
    assert_eq!(verify(&commitment, &proof, &z, &Scalar::from_u64(8), &pp.g2), Ok(false));
}

#[test]
fn open_evaluates_polynomial() {
    let pp = params(2);
    let poly = Poly::from_coefficients(&scalars(&[2, 3, 4]));
    let (y, _) = open(&pp.g1, &poly, &Scalar::from_u64(2)).unwrap();
    assert!(y.equals(&Scalar::from_u64(24)));
    let (y0, _) = open(&pp.g1, &poly, &Scalar::from_u64(0)).unwrap();
    assert!(y0.equals(&Scalar::from_u64(2)));
}

#[test]
fn completeness_on_random_points() {
    let pp = params(5);
    let poly = create_polynomial(5);
    let commitment = commitment_phase(&pp.g1, &poly).unwrap();
    for z in random_scalars(4) {
        let (y, proof) = open(&pp.g1, &poly, &z).unwrap();
        assert_eq!(verify(&commitment, &proof, &z, &y, &pp.g2), Ok(true));
    }
}

#[test]
fn soundness_rejects_other_value() {
    let pp = params(3);
    let poly = create_polynomial(3);
    let commitment = commitment_phase(&pp.g1, &poly).unwrap();
    let z = Scalar::from_u64(5);
    let (_, proof) = open(&pp.g1, &poly, &z).unwrap();
    // 2 + 3*5 + 4*25 + 5*125 = 742
    assert_eq!(verify(&commitment, &proof, &z, &Scalar::from_u64(742), &pp.g2), Ok(true));
    assert_eq!(verify(&commitment, &proof, &z, &Scalar::from_u64(743), &pp.g2), Ok(false));
    assert_eq!(verify(&commitment, &proof, &Scalar::from_u64(6), &Scalar::from_u64(742), &pp.g2), Ok(false));
}

#[test]
fn commitment_is_deterministic() {
    let pp = params(4);
    let poly = create_polynomial(4);
    let first = commitment_phase(&pp.g1, &poly).unwrap();
    let second = commitment_phase(&pp.g1, &poly).unwrap();
    assert!(first.equals(&second));
    let other = Poly::from_coefficients(&scalars(&[2, 3, 4, 5, 7]));
    let third = commitment_phase(&pp.g1, &other).unwrap();
    assert!(!first.equals(&third));
}

#[test]
fn batch_consistency() {
    let pp = params(3);
    let poly = create_polynomial(3);
    let commitment = commitment_phase(&pp.g1, &poly).unwrap();
    let zs = scalars(&[1, 2, 3]);
    let (ys, proofs) = prove_multi_evaluations(&pp.g1, &poly, &zs).unwrap();
    assert_eq!(ys.len(), 3);
    assert_eq!(proofs.len(), 3);
    // 2 + 3 + 4 + 5 = 14
    assert!(ys[0].equals(&Scalar::from_u64(14)));
    assert_eq!(verify_multi_evaluations(&commitment, &proofs, &zs, &ys, &pp.g2), Ok(true));
    for i in 0..3 {
        assert_eq!(verify(&commitment, &proofs[i], &zs[i], &ys[i], &pp.g2), Ok(true));
    }
    let mut wrong = scalars(&[14]);
    wrong.push(Scalar::from_u64(1));
    wrong.push(Scalar::from_u64(1));
    assert_eq!(verify_multi_evaluations(&commitment, &proofs, &zs, &wrong, &pp.g2), Ok(false));
}

#[test]
fn batch_with_one_bad_point_fails() {
    let pp = params(2);
    let poly = create_polynomial(2);
    let commitment = commitment_phase(&pp.g1, &poly).unwrap();
    let zs = scalars(&[4, 5, 6]);
    let (_, proofs) = prove_multi_evaluations(&pp.g1, &poly, &zs).unwrap();
    // values of 2 + 3x + 4x^2 at 4, 5, 6 are 78, 117, 164; the last is off by one
    let ys = scalars(&[78, 117, 165]);
    assert_eq!(verify_multi_evaluations(&commitment, &proofs, &zs, &ys, &pp.g2), Ok(false));
    let ys = scalars(&[78, 117, 164]);
    assert_eq!(verify_multi_evaluations(&commitment, &proofs, &zs, &ys, &pp.g2), Ok(true));
}

#[test]
fn boundary_linear_polynomial() {
    let pp = params(1);
    assert_eq!(pp.g1.len(), 2);
    assert_eq!(pp.g2.len(), 2);
    let poly = create_polynomial(1);
    assert_eq!(poly.len(), 2);
    let commitment = commitment_phase(&pp.g1, &poly).unwrap();
    let z = Scalar::from_u64(10);
    let (y, proof) = open(&pp.g1, &poly, &z).unwrap();
    assert!(y.equals(&Scalar::from_u64(32)));
    assert_eq!(verify(&commitment, &proof, &z, &y, &pp.g2), Ok(true));
}

#[test]
fn degree_equal_to_max_degree_fits() {
    let pp = params(6);
    let poly = create_polynomial(6);
    assert_eq!(poly.len(), pp.g1.len());
    let commitment = commitment_phase(&pp.g1, &poly).unwrap();
    let zs = random_scalars(3);
    let (ys, proofs) = prove_multi_evaluations(&pp.g1, &poly, &zs).unwrap();
    assert_eq!(verify_multi_evaluations(&commitment, &proofs, &zs, &ys, &pp.g2), Ok(true));
}

#[test]
fn setup_rejects_invalid_degree() {
    assert!(matches!(setup_phase(0), Err(KzgError::InvalidDegree)));
    assert!(matches!(setup_phase(MAX_DEGREE + 1), Err(KzgError::InvalidDegree)));
    assert!(matches!(setup_with_secret(0, &Scalar::from_u64(7)), Err(KzgError::InvalidDegree)));
}

#[test]
fn setup_with_known_secret_gives_powers() {
    let pp = setup_with_secret(3, &Scalar::from_u64(7)).unwrap();
    assert_eq!(pp.g1.len(), 4);
    assert_eq!(pp.g2.len(), 4);
    // the commitment to x^2 equals the commitment to the constant 49 when tau = 7
    let x_squared = Poly::from_coefficients(&scalars(&[0, 0, 1]));
    let constant = Poly::from_coefficients(&scalars(&[49]));
    let a = commitment_phase(&pp.g1, &x_squared).unwrap();
    let b = commitment_phase(&pp.g1, &constant).unwrap();
    assert!(a.equals(&b));
    let c = commitment_phase(&pp.g1, &Poly::from_coefficients(&scalars(&[48]))).unwrap();
    assert!(!a.equals(&c));
}

#[test]
fn trailing_zero_coefficients_are_dropped() {
    let poly = Poly::from_coefficients(&scalars(&[5, 0, 0]));
    assert_eq!(poly.len(), 1);
    let zero = Poly::from_coefficients(&scalars(&[0]));
    assert_eq!(zero.len(), 0);
}

#[test]
fn commitment_rejects_short_parameters() {
    let pp = params(2);
    let poly = create_polynomial(3);
    assert!(matches!(commitment_phase(&pp.g1, &poly), Err(KzgError::InsufficientParameters)));
    let poly = create_polynomial(4);
    assert!(matches!(commitment_phase(&pp.g1, &poly), Err(KzgError::InsufficientParameters)));
    assert!(matches!(open(&pp.g1, &poly, &Scalar::from_u64(1)), Err(KzgError::InsufficientParameters)));
    let zs = scalars(&[1]);
    assert!(matches!(
        prove_multi_evaluations(&pp.g1, &poly, &zs),
        Err(KzgError::InsufficientParameters)
    ));
}

#[test]
fn verify_rejects_short_g2_parameters() {
    let pp = params(2);
    let poly = create_polynomial(2);
    let commitment = commitment_phase(&pp.g1, &poly).unwrap();
    let z = Scalar::from_u64(1);
    let (y, proof) = open(&pp.g1, &poly, &z).unwrap();
    let short = Vec::new();
    assert_eq!(verify(&commitment, &proof, &z, &y, &short), Err(KzgError::InsufficientParameters));
    assert_eq!(
        verify_multi_evaluations(&commitment, &[], &[], &[], &short),
        Err(KzgError::InsufficientParameters)
    );
}

#[test]
fn create_polynomial_coefficients() {
    let pp = setup_with_secret(2, &Scalar::from_u64(1)).unwrap();
    // with tau = 1 the commitment is the sum of the coefficients 2 + 3 + 4
    let commitment = commitment_phase(&pp.g1, &create_polynomial(2)).unwrap();
    let expected = commitment_phase(&pp.g1, &Poly::from_coefficients(&scalars(&[9]))).unwrap();
    assert!(commitment.equals(&expected));
}

#[test]
fn random_scalars_have_requested_length() {
    let zs = random_scalars(3);
    assert_eq!(zs.len(), 3);
    assert!(!zs[0].equals(&zs[1]) || !zs[1].equals(&zs[2]));
}

#[test]
fn open_needs_only_room_for_the_quotient() {
    let mut pp = setup_with_secret(3, &Scalar::from_u64(7)).unwrap();
    let poly = create_polynomial(3);
    let commitment = commitment_phase(&pp.g1, &poly).unwrap();
    pp.g1.truncate(3);
    let z = Scalar::from_u64(2);
    let (y, proof) = open(&pp.g1, &poly, &z).unwrap();
    // 2 + 3*2 + 4*4 + 5*8 = 64
    assert!(y.equals(&Scalar::from_u64(64)));
    assert_eq!(verify(&commitment, &proof, &z, &y, &pp.g2), Ok(true));
    let zs = scalars(&[1, 2]);
    let (ys, proofs) = prove_multi_evaluations(&pp.g1, &poly, &zs).unwrap();
    assert!(ys[0].equals(&Scalar::from_u64(14)));
    assert!(ys[1].equals(&Scalar::from_u64(64)));
    assert_eq!(verify_multi_evaluations(&commitment, &proofs, &zs, &ys, &pp.g2), Ok(true));
    pp.g1.truncate(2);
    assert!(matches!(open(&pp.g1, &poly, &z), Err(KzgError::InsufficientParameters)));
}

#[test]
fn constant_polynomial_opens_without_points() {
    let pp = params(1);
    let poly = Poly::from_coefficients(&scalars(&[5]));
    let commitment = commitment_phase(&pp.g1, &poly).unwrap();
    let empty = Vec::new();
    let zs = scalars(&[3, 9]);
    let (ys, proofs) = prove_multi_evaluations(&empty, &poly, &zs).unwrap();
    assert_eq!(ys.len(), 2);
    assert!(ys[0].equals(&Scalar::from_u64(5)));
    assert!(ys[1].equals(&Scalar::from_u64(5)));
    let zero = commitment_phase(&pp.g1, &Poly::from_coefficients(&scalars(&[0]))).unwrap();
    assert!(proofs[0].equals(&zero));
    assert!(proofs[1].equals(&zero));
    assert_eq!(verify_multi_evaluations(&commitment, &proofs, &zs, &ys, &pp.g2), Ok(true));
}
