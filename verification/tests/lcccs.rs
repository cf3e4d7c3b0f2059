use ark_std::rand::rngs::StdRng;
use ark_std::rand::SeedableRng;

use hypernova::ccs::{CCSError, CCS};
use hypernova::field::Fe;
use hypernova::lcccs::{Witness, LCCCS};
use hypernova::pedersen::{commit, new_params};

fn fe(x: u64) -> Fe {
    Fe::from_u64(x)
}

fn minus_one() -> Fe {
    Fe::zero().sub(&Fe::one())
}

fn fe_matrix(rows: &[[u64; 6]; 4]) -> Vec<Vec<Fe>> {
    rows.iter().map(|row| row.iter().map(|&x| fe(x)).collect()).collect()
}

/// The CCS of the R1CS for `x^3 + x + 5 = y`, over the assignment
/// `z = (1, x, y, x^2, x^3, x^3 + x)`.
fn get_test_ccs() -> CCS {
    let a = fe_matrix(&[
        [0, 1, 0, 0, 0, 0],
        [0, 0, 0, 1, 0, 0],
        [0, 1, 0, 0, 1, 0],
        [5, 0, 0, 0, 0, 1],
    ]);
    let b = fe_matrix(&[
        [0, 1, 0, 0, 0, 0],
        [0, 1, 0, 0, 0, 0],
        [1, 0, 0, 0, 0, 0],
        [1, 0, 0, 0, 0, 0],
    ]);
    let c = fe_matrix(&[
        [0, 0, 0, 1, 0, 0],
        [0, 0, 0, 0, 1, 0],
        [0, 0, 0, 0, 0, 1],
        [0, 0, 1, 0, 0, 0],
    ]);
    CCS {
        m: 4,
        n: 6,
        l: 1,
        t: 3,
        q: 2,
        s: 2,
        matrices: vec![a, b, c],
        index_sets: vec![vec![0, 1], vec![2]],
        coefficients: vec![Fe::one(), minus_one()],
    }
}

fn get_test_z(input: u64) -> Vec<Fe> {
    vec![
        fe(1),
        fe(input),
        fe(input * input * input + input + 5),
        fe(input * input),
        fe(input * input * input),
        fe(input * input * input + input),
    ]
}

#[test]
/// Test linearized CCCS v_j against the L_j(x)
fn test_lcccs_v_j() {
    let mut rng = StdRng::seed_from_u64(42);

    let ccs = get_test_ccs();
    let z = get_test_z(3);
    ccs.check_relation(&z.clone()).unwrap();

    let pedersen_params = new_params(&mut rng, ccs.n - ccs.l - 1);
    let (running_instance, _) = ccs.to_lcccs(&mut rng, &pedersen_params, &z);

    // with our test vector coming from R1CS, v should have length 3
    assert_eq!(running_instance.v.len(), 3);

    let vec_l_j_x = ccs.compute_linearized_evals(&z, &running_instance.r_x);
    assert_eq!(vec_l_j_x.len(), running_instance.v.len());

    for (v_i, l_j_x) in running_instance.v.into_iter().zip(vec_l_j_x) {
        let mut sum_l_j_x = Fe::zero();
        for e in &l_j_x {
            sum_l_j_x = sum_l_j_x.add(e);
        }
        assert_eq!(v_i, sum_l_j_x);
    }
}

#[test]
fn test_lcccs_fold() {
    let ccs = get_test_ccs();
    let z1 = get_test_z(3);
    let z2 = get_test_z(4);
    ccs.check_relation(&z1).unwrap();
    ccs.check_relation(&z2).unwrap();

    let mut rng = StdRng::seed_from_u64(42);
    let r_x_prime: Vec<Fe> = (0..ccs.s).map(|_| Fe::rand(&mut rng)).collect();

    let (sigmas, thetas) = ccs.compute_sigmas_and_thetas(&z1, &z2, &r_x_prime);

    let pedersen_params = new_params(&mut rng, ccs.n - ccs.l - 1);

    let (lcccs, w1) = ccs.to_lcccs(&mut rng, &pedersen_params, &z1);
    let (cccs, w2) = ccs.to_cccs(&mut rng, &pedersen_params, &z2);

    lcccs.check_relation(&pedersen_params, &w1).unwrap();
    cccs.check_relation(&pedersen_params, &w2).unwrap();

    let mut rng = StdRng::seed_from_u64(42);
    let rho = Fe::rand(&mut rng);

    let folded = LCCCS::fold(&lcccs, &cccs, &sigmas, &thetas, r_x_prime, rho);

    let w_folded = LCCCS::fold_witness(w1, w2, rho);

    // check lcccs relation
    folded.check_relation(&pedersen_params, &w_folded).unwrap();
}

#[test]
fn test_round_trip_both_instances() {
    let mut rng = StdRng::seed_from_u64(1);
    let ccs = get_test_ccs();
    let pedersen_params = new_params(&mut rng, ccs.n - ccs.l - 1);

    let z = get_test_z(3);
    let (lcccs, w1) = ccs.to_lcccs(&mut rng, &pedersen_params, &z);
    assert_eq!(lcccs.check_relation(&pedersen_params, &w1), Ok(()));
    assert_eq!(lcccs.u, Fe::one());
    assert_eq!(lcccs.x, vec![fe(3)]);
    assert_eq!(w1.w, vec![fe(35), fe(9), fe(27), fe(30)]);

    let (cccs, w2) = ccs.to_cccs(&mut rng, &pedersen_params, &z);
    assert_eq!(cccs.check_relation(&pedersen_params, &w2), Ok(()));
    assert_eq!(cccs.x, vec![fe(3)]);
}

#[test]
fn test_tamper_any_witness_coordinate_detected() {
    let mut rng = StdRng::seed_from_u64(2);
    let ccs = get_test_ccs();
    let pedersen_params = new_params(&mut rng, ccs.n - ccs.l - 1);
    let z = get_test_z(3);

    let (lcccs, w) = ccs.to_lcccs(&mut rng, &pedersen_params, &z);
    for k in 0..w.w.len() {
        let mut tampered = Witness { w: w.w.clone(), r_w: w.r_w };
        tampered.w[k] = tampered.w[k].add(&Fe::one());
        assert_eq!(
            lcccs.check_relation(&pedersen_params, &tampered),
            Err(CCSError::CommitmentMismatch)
        );
    }

    let (cccs, w) = ccs.to_cccs(&mut rng, &pedersen_params, &z);
    for k in 0..w.w.len() {
        let mut tampered = Witness { w: w.w.clone(), r_w: w.r_w };
        tampered.w[k] = tampered.w[k].add(&Fe::one());
        assert_eq!(
            cccs.check_relation(&pedersen_params, &tampered),
            Err(CCSError::CommitmentMismatch)
        );
    }
}

#[test]
fn test_fold_commitment_homomorphism() {
    let mut rng = StdRng::seed_from_u64(3);
    let ccs = get_test_ccs();
    let pedersen_params = new_params(&mut rng, ccs.n - ccs.l - 1);
    let z1 = get_test_z(3);
    let z2 = get_test_z(4);

    let (lcccs, w1) = ccs.to_lcccs(&mut rng, &pedersen_params, &z1);
    let (cccs, w2) = ccs.to_cccs(&mut rng, &pedersen_params, &z2);

    let r_x_prime: Vec<Fe> = (0..ccs.s).map(|_| Fe::rand(&mut rng)).collect();
    let (sigmas, thetas) = ccs.compute_sigmas_and_thetas(&z1, &z2, &r_x_prime);
    let rho = Fe::rand(&mut rng);

    let folded = LCCCS::fold(&lcccs, &cccs, &sigmas, &thetas, r_x_prime, rho);

    // recompute C1 + rho*C2 independently, from the witnesses
    let c1 = commit(&pedersen_params, &w1.w, &w1.r_w);
    let c2 = commit(&pedersen_params, &w2.w, &w2.r_w);
    let expected = c1.add(&c2.scalar_mul(&rho));
    assert!(folded.C.equals(&expected));
}

#[test]
fn test_rho_mismatch_fails() {
    let mut rng = StdRng::seed_from_u64(4);
    let ccs = get_test_ccs();
    let pedersen_params = new_params(&mut rng, ccs.n - ccs.l - 1);
    let z1 = get_test_z(3);
    let z2 = get_test_z(4);

    let (lcccs, w1) = ccs.to_lcccs(&mut rng, &pedersen_params, &z1);
    let (cccs, w2) = ccs.to_cccs(&mut rng, &pedersen_params, &z2);

    let r_x_prime: Vec<Fe> = (0..ccs.s).map(|_| Fe::rand(&mut rng)).collect();
    let (sigmas, thetas) = ccs.compute_sigmas_and_thetas(&z1, &z2, &r_x_prime);

    let rho_a = Fe::from_u64(11);
    let rho_b = Fe::from_u64(12);
    let folded = LCCCS::fold(&lcccs, &cccs, &sigmas, &thetas, r_x_prime, rho_a);
    let w_folded = LCCCS::fold_witness(w1, w2, rho_b);

    assert_eq!(
        folded.check_relation(&pedersen_params, &w_folded),
        Err(CCSError::CommitmentMismatch)
    );
}

#[test]
fn test_fold_deterministic() {
    let mut rng = StdRng::seed_from_u64(5);
    let ccs = get_test_ccs();
    let pedersen_params = new_params(&mut rng, ccs.n - ccs.l - 1);
    let z1 = get_test_z(3);
    let z2 = get_test_z(4);

    let (lcccs, w1) = ccs.to_lcccs(&mut rng, &pedersen_params, &z1);
    let (cccs, w2) = ccs.to_cccs(&mut rng, &pedersen_params, &z2);

    let r_x_prime: Vec<Fe> = (0..ccs.s).map(|_| Fe::rand(&mut rng)).collect();
    let (sigmas, thetas) = ccs.compute_sigmas_and_thetas(&z1, &z2, &r_x_prime);
    let rho = Fe::from_u64(77);

    let f1 = LCCCS::fold(&lcccs, &cccs, &sigmas, &thetas, r_x_prime.clone(), rho);
    let f2 = LCCCS::fold(&lcccs, &cccs, &sigmas, &thetas, r_x_prime, rho);
    assert!(f1.C.equals(&f2.C));
    assert_eq!(f1.u, f2.u);
    assert_eq!(f1.x, f2.x);
    assert_eq!(f1.r_x, f2.r_x);
    assert_eq!(f1.v, f2.v);

    let g1 = LCCCS::fold_witness(
        Witness { w: w1.w.clone(), r_w: w1.r_w },
        Witness { w: w2.w.clone(), r_w: w2.r_w },
        rho,
    );
    let g2 = LCCCS::fold_witness(w1, w2, rho);
    assert_eq!(g1.w, g2.w);
    assert_eq!(g1.r_w, g2.r_w);
}

#[test]
fn test_length_mismatch_errors() {
    let mut rng = StdRng::seed_from_u64(6);
    let ccs = get_test_ccs();
    let pedersen_params = new_params(&mut rng, ccs.n - ccs.l - 1);
    let z = get_test_z(3);

    let (lcccs, w) = ccs.to_lcccs(&mut rng, &pedersen_params, &z);
    let mut short = Witness { w: w.w.clone(), r_w: w.r_w };
    short.w.pop();
    assert_eq!(
        lcccs.check_relation(&pedersen_params, &short),
        Err(CCSError::LengthMismatch)
    );

    // too few generators to recommit
    let short_params = new_params(&mut rng, ccs.n - ccs.l - 2);
    assert_eq!(
        lcccs.check_relation(&short_params, &w),
        Err(CCSError::LengthMismatch)
    );

    let (cccs, w2) = ccs.to_cccs(&mut rng, &pedersen_params, &z);
    let mut long = Witness { w: w2.w.clone(), r_w: w2.r_w };
    long.w.push(Fe::zero());
    assert_eq!(
        cccs.check_relation(&pedersen_params, &long),
        Err(CCSError::LengthMismatch)
    );
}

#[test]
fn test_not_satisfied() {
    let mut rng = StdRng::seed_from_u64(7);
    let ccs = get_test_ccs();
    let pedersen_params = new_params(&mut rng, ccs.n - ccs.l - 1);

    // wrong output coordinate: 36 instead of 3^3 + 3 + 5 = 35
    let mut z = get_test_z(3);
    z[2] = fe(36);
    assert_eq!(ccs.check_relation(&z), Err(CCSError::NotSatisfied));

    let (cccs, w) = ccs.to_cccs(&mut rng, &pedersen_params, &z);
    assert_eq!(
        cccs.check_relation(&pedersen_params, &w),
        Err(CCSError::NotSatisfied)
    );
}

#[test]
fn test_evaluation_mismatch() {
    let mut rng = StdRng::seed_from_u64(8);
    let ccs = get_test_ccs();
    let pedersen_params = new_params(&mut rng, ccs.n - ccs.l - 1);
    let z = get_test_z(3);

    let (mut lcccs, w) = ccs.to_lcccs(&mut rng, &pedersen_params, &z);
    lcccs.v[0] = lcccs.v[0].add(&Fe::one());
    assert_eq!(
        lcccs.check_relation(&pedersen_params, &w),
        Err(CCSError::EvaluationMismatch)
    );
}

#[test]
fn test_field_ops() {
    assert_eq!(fe(2).add(&fe(3)), fe(5));
    assert_eq!(fe(2).mul(&fe(3)), fe(6));
    assert_eq!(fe(7).sub(&fe(7)), Fe::zero());
    // -1 + 1 == 0 wraps around the field order
    assert_eq!(minus_one().add(&Fe::one()), Fe::zero());
    assert_ne!(minus_one(), Fe::zero());
    assert_eq!(Fe::from_u64(1), Fe::one());
}

#[test]
fn test_group_ops() {
    let mut rng = StdRng::seed_from_u64(9);
    let h = hypernova::group::GroupElement::rand(&mut rng);
    // doubling equals multiplication by two, and moves the point
    let doubled = h.add(&h);
    assert!(doubled.equals(&h.scalar_mul(&fe(2))));
    assert!(!doubled.equals(&h));
    assert!(h.scalar_mul(&Fe::one()).equals(&h));
}

#[test]
fn test_fold_exact_values() {
    let mut rng = StdRng::seed_from_u64(10);
    let ccs = get_test_ccs();
    let pedersen_params = new_params(&mut rng, ccs.n - ccs.l - 1);

    let (lcccs, _) = ccs.to_lcccs(&mut rng, &pedersen_params, &get_test_z(3));
    let (cccs, _) = ccs.to_cccs(&mut rng, &pedersen_params, &get_test_z(4));

    let sigmas = vec![fe(3), fe(4), fe(5)];
    let thetas = vec![fe(6), fe(7), fe(8)];
    let r_x_prime = vec![fe(9), fe(10)];
    let rho = fe(2);

    let folded = LCCCS::fold(&lcccs, &cccs, &sigmas, &thetas, r_x_prime.clone(), rho);
    // u' = 1 + rho
    assert_eq!(folded.u, fe(3));
    // x' = x1 + rho*x2 = 3 + 2*4
    assert_eq!(folded.x, vec![fe(11)]);
    // v'_j = sigma_j + rho*theta_j
    assert_eq!(folded.v, vec![fe(15), fe(18), fe(21)]);
    // r_x' replaces the old point
    assert_eq!(folded.r_x, r_x_prime);

    // w' = w1 + rho*w2, r_w' = r_w1 + rho*r_w2
    let w1 = Witness { w: vec![fe(1), fe(2)], r_w: fe(3) };
    let w2 = Witness { w: vec![fe(4), fe(5)], r_w: fe(6) };
    let wf = LCCCS::fold_witness(w1, w2, rho);
    assert_eq!(wf.w, vec![fe(9), fe(12)]);
    assert_eq!(wf.r_w, fe(15));
}
