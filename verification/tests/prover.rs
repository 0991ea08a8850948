use bellperson::density::FullDensity;
use bellperson::error::SynthesisError;
use bellperson::exponent::Exponent;
use bellperson::groth16::prover::{
    assemble_proof, check_verifying_key, select_and_multiexp, Backend, BackendSelector, Selection,
    Sums, VerifyingKey,
};
use bellperson::multiexp::Multiexp;
use groupy::{CurveAffine, CurveProjective};
use paired::bls12_381::{FrRepr, G1Affine, G2Affine, G1, G2};
use std::sync::Arc;

fn g1_multiple(k: u64) -> G1Affine {
    G1Affine::one().mul(FrRepr::from(k)).into_affine()
}

#[test]
fn the_accelerator_is_used_while_it_may_be() {
    let mut selector = BackendSelector::new();
    for _ in 0..8 {
        assert_eq!(
            selector.select(true),
            Selection { backend: Backend::Accelerator, release_device: false }
        );
    }
    assert!(!selector.has_fallen_back());
}

#[test]
fn a_fallback_lasts_to_the_end_of_the_proof() {
    let mut selector = BackendSelector::new();
    let answers = [true, true, false, true, false, true, true, true];
    let mut choices = vec![];
    for may in answers {
        choices.push(selector.select(may));
    }
    let accelerated = Selection { backend: Backend::Accelerator, release_device: false };
    let falling = Selection { backend: Backend::Cpu, release_device: true };
    let fallen = Selection { backend: Backend::Cpu, release_device: false };
    assert_eq!(
        choices,
        vec![accelerated, accelerated, falling, fallen, fallen, fallen, fallen, fallen]
    );
    assert!(selector.has_fallen_back());
}

#[test]
fn a_proof_can_fall_back_at_its_first_step() {
    let mut selector = BackendSelector::new();
    assert_eq!(selector.select(false), Selection { backend: Backend::Cpu, release_device: true });
    assert_eq!(selector.select(true), Selection { backend: Backend::Cpu, release_device: false });
}

fn inputs() -> ((Arc<Vec<G1Affine>>, usize), Arc<Vec<Exponent>>) {
    let bases = Arc::new(vec![g1_multiple(1), g1_multiple(2)]);
    let exps = Arc::new(vec![Exponent::from_u64(5), Exponent::from_u64(6)]);
    ((bases, 0), exps)
}

#[test]
fn a_step_on_the_accelerator_hands_the_work_out() {
    let (bases, exps) = inputs();
    let mut selector = BackendSelector::new();
    let kern = Some(());
    let (release, m) =
        select_and_multiexp::<G1, _, _, _>(&mut selector, true, &bases, &FullDensity, exps, &kern);
    assert!(!release);
    assert!(matches!(m, Multiexp::Accelerated(_)));
}

#[test]
fn a_step_without_a_kernel_is_computed() {
    let (bases, exps) = inputs();
    let mut selector = BackendSelector::new();
    let kern: Option<()> = None;
    let (release, m) =
        select_and_multiexp::<G1, _, _, _>(&mut selector, true, &bases, &FullDensity, exps, &kern);
    assert!(!release);
    match m {
        Multiexp::Computed(r) => assert_eq!(r.unwrap().into_affine(), g1_multiple(17)),
        Multiexp::Accelerated(_) => panic!("no kernel was given"),
    }
}

#[test]
fn a_step_after_the_fallback_is_computed_though_a_kernel_is_there() {
    let (bases, exps) = inputs();
    let mut selector = BackendSelector::new();
    let kern = Some(());
    let (release, m) = select_and_multiexp::<G1, _, _, _>(
        &mut selector,
        false,
        &bases,
        &FullDensity,
        exps.clone(),
        &kern,
    );
    assert!(release);
    assert!(matches!(m, Multiexp::Computed(Ok(_))));
    let (release, m) =
        select_and_multiexp::<G1, _, _, _>(&mut selector, true, &bases, &FullDensity, exps, &kern);
    assert!(!release);
    match m {
        Multiexp::Computed(r) => assert_eq!(r.unwrap().into_affine(), g1_multiple(17)),
        Multiexp::Accelerated(_) => panic!("the proof had fallen back"),
    }
}

#[test]
fn a_verifying_key_with_an_identity_is_refused() {
    let one1 = G1Affine::one();
    let one2 = G2Affine::one();
    assert_eq!(check_verifying_key::<G1, G2>(&one1, &one2), Ok(()));
    assert_eq!(
        check_verifying_key::<G1, G2>(&G1Affine::zero(), &one2),
        Err(SynthesisError::UnexpectedIdentity)
    );
    assert_eq!(
        check_verifying_key::<G1, G2>(&one1, &G2Affine::zero()),
        Err(SynthesisError::UnexpectedIdentity)
    );
}

fn g2_multiple(k: u64) -> G2Affine {
    G2Affine::one().mul(FrRepr::from(k)).into_affine()
}

fn fr(n: u64) -> paired::bls12_381::Fr {
    fff::PrimeField::from_repr(FrRepr::from(n)).unwrap()
}

fn key(delta_g1: G1Affine, delta_g2: G2Affine) -> VerifyingKey<G1, G2> {
    VerifyingKey {
        alpha_g1: g1_multiple(2),
        beta_g1: g1_multiple(3),
        beta_g2: g2_multiple(3),
        gamma_g2: g2_multiple(5),
        delta_g1,
        delta_g2,
        ic: vec![g1_multiple(11)],
    }
}

fn sums() -> Sums<G1, G2> {
    Sums {
        h: g1_multiple(1000).into_projective(),
        l: g1_multiple(2000).into_projective(),
        a_inputs: g1_multiple(10).into_projective(),
        a_aux: g1_multiple(20).into_projective(),
        b_g1_inputs: g1_multiple(100).into_projective(),
        b_g1_aux: g1_multiple(200).into_projective(),
        b_g2_inputs: g2_multiple(100).into_projective(),
        b_g2_aux: g2_multiple(200).into_projective(),
    }
}

#[test]
fn a_proof_is_put_together() {
    // delta = 7, r = 4, s = 6
    let made = assemble_proof(&key(g1_multiple(7), g2_multiple(7)), fr(4), fr(6), sums());
    let made = match made {
        Ok(made) => made,
        Err(_) => panic!("the key has no identity"),
    };
    // a = delta r + alpha + a
    assert_eq!(made.a, g1_multiple(7 * 4 + 2 + 30));
    // b = delta s + beta + b
    assert_eq!(made.b, g2_multiple(7 * 6 + 3 + 300));
    // c = delta r s + alpha s + beta r + a s + b r + h + l
    assert_eq!(made.c, g1_multiple(7 * 24 + 2 * 6 + 3 * 4 + 30 * 6 + 300 * 4 + 1000 + 2000));
}

#[test]
fn no_proof_is_made_with_an_identity_for_delta() {
    let first = assemble_proof(&key(G1Affine::zero(), g2_multiple(7)), fr(4), fr(6), sums());
    assert!(matches!(first, Err(SynthesisError::UnexpectedIdentity)));
    let second = assemble_proof(&key(g1_multiple(7), G2Affine::zero()), fr(4), fr(6), sums());
    assert!(matches!(second, Err(SynthesisError::UnexpectedIdentity)));
}
