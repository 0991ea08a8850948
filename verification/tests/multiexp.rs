use bellperson::density::{DensityTracker, FullDensity};
use bellperson::error::{GPUError, SynthesisError};
use bellperson::exponent::Exponent;
use bellperson::multiexp::{
    agrees_with_cpu, combine_windows, compact_exponents, gpu_multiexp_supported, kernel_outcome,
    multiexp, multiexp_inner, window_sum, Multiexp, SupportCache, TEST_SIZE,
};
use fff::{Field, PrimeField};
use groupy::{CurveAffine, CurveProjective};
use paired::bls12_381::{Fr, FrRepr, G1Affine, G2Affine, G1, G2};
use std::sync::Arc;

fn g1_multiple(k: u64) -> G1Affine {
    G1Affine::one().mul(FrRepr::from(k)).into_affine()
}

fn g2_multiple(k: u64) -> G2Affine {
    G2Affine::one().mul(FrRepr::from(k)).into_affine()
}

fn small(values: &[u64]) -> Vec<Exponent> {
    values.iter().map(|v| Exponent::from_u64(*v)).collect()
}

fn computed<G: bellperson::curve::Curve>(m: Multiexp<G>) -> Result<G, SynthesisError> {
    match m {
        Multiexp::Computed(r) => r,
        Multiexp::Accelerated(_) => panic!("no kernel was given"),
    }
}

fn tracker(flags: &[bool]) -> DensityTracker {
    let mut density = DensityTracker::new();
    for _ in flags {
        density.add_element();
    }
    for (i, flag) in flags.iter().enumerate() {
        if *flag {
            density.inc(i);
        }
    }
    density
}

fn naive_multiexp<G: CurveAffine>(
    bases: Arc<Vec<G>>,
    exponents: Arc<Vec<<G::Scalar as PrimeField>::Repr>>,
) -> G::Projective {
    assert_eq!(bases.len(), exponents.len());

    let mut acc = G::Projective::zero();

    for (base, exp) in bases.iter().zip(exponents.iter()) {
        acc.add_assign(&base.mul(*exp));
    }

    acc
}

#[test]
fn test_with_bls12() {
    const SAMPLES: usize = 1 << 9;

    let rng = &mut rand::thread_rng();
    let v = Arc::new(
        (0..SAMPLES)
            .map(|_| Fr::random(rng).into_repr())
            .collect::<Vec<_>>(),
    );
    let g = Arc::new(
        (0..SAMPLES)
            .map(|_| G1::random(rng).into_affine())
            .collect::<Vec<_>>(),
    );

    let naive = naive_multiexp(g.clone(), v.clone());

    let exponents = Arc::new(v.iter().map(|repr| Exponent::new(repr.0)).collect::<Vec<_>>());
    let none: Option<()> = None;
    let fast: G1 = computed(multiexp(&(g, 0usize), &FullDensity, exponents, &none)).unwrap();

    assert_eq!(naive, fast);
}

#[test]
fn generator_multiples_sum_to_four() {
    let bases = Arc::new(vec![g1_multiple(1), g1_multiple(2), g1_multiple(3)]);
    let exps = Arc::new(small(&[1, 0, 1]));
    let none: Option<()> = None;
    let sum: G1 = computed(multiexp(&(bases, 0usize), &FullDensity, exps, &none)).unwrap();
    assert_eq!(sum.into_affine(), g1_multiple(4));
}

#[test]
fn inactive_position_is_skipped_whatever_its_exponent() {
    let bases = Arc::new(vec![g1_multiple(1), g1_multiple(3)]);
    let exps = Arc::new(small(&[1, 5, 1]));
    let density = tracker(&[true, false, true]);
    let none: Option<()> = None;
    let sum: G1 = computed(multiexp(&(bases, 0usize), &density, exps, &none)).unwrap();
    assert_eq!(sum.into_affine(), g1_multiple(4));
}

#[test]
fn second_group_sums_as_the_first() {
    let bases = Arc::new(vec![g2_multiple(1), g2_multiple(2), g2_multiple(3)]);
    let exps = Arc::new(small(&[4, 10, 100]));
    let none: Option<()> = None;
    let sum: G2 = computed(multiexp(&(bases, 0usize), &FullDensity, exps, &none)).unwrap();
    assert_eq!(sum.into_affine(), g2_multiple(324));
}

#[test]
fn every_window_width_gives_the_naive_sum() {
    let bases = Arc::new(vec![g1_multiple(1), g1_multiple(2), g1_multiple(3), g1_multiple(5)]);
    let exps = vec![
        Exponent::from_u64(77),
        Exponent::from_u64(1),
        Exponent::new([0, 3, 0, 0]),
        Exponent::new([9, 0, 0, 1 << 60]),
    ];
    let reprs = Arc::new(exps.iter().map(|e| FrRepr(e.limbs)).collect::<Vec<_>>());
    let naive = naive_multiexp(bases.clone(), reprs);
    for c in 1..14u32 {
        let sum: G1 =
            multiexp_inner(&(bases.clone(), 0usize), &FullDensity, &exps, 0, c, true).unwrap();
        assert_eq!(sum, naive);
    }
}

#[test]
fn source_starts_at_its_cursor() {
    let bases = Arc::new(vec![g1_multiple(7), g1_multiple(1), g1_multiple(2)]);
    let exps = Arc::new(small(&[3, 4]));
    let none: Option<()> = None;
    let sum: G1 = computed(multiexp(&(bases, 1usize), &FullDensity, exps, &none)).unwrap();
    assert_eq!(sum.into_affine(), g1_multiple(11));
}

#[test]
fn no_exponents_sum_to_the_identity() {
    let bases: Arc<Vec<G1Affine>> = Arc::new(vec![]);
    let none: Option<()> = None;
    let sum: G1 = computed(multiexp(&(bases, 0usize), &FullDensity, Arc::new(vec![]), &none)).unwrap();
    assert!(sum.is_zero());
}

#[test]
fn one_window_sums_the_bits_it_sees() {
    // 0b110_101: the window of three bits at bit three sees 0b110
    let bases = Arc::new(vec![g1_multiple(1), g1_multiple(10)]);
    let exps = small(&[0b110_101, 0b001_000]);
    let sum: G1 = window_sum(&(bases.clone(), 0usize), &FullDensity, &exps, 3, 3, false).unwrap();
    assert_eq!(sum.into_affine(), g1_multiple(6 + 10));
    let low: G1 = window_sum(&(bases, 0usize), &FullDensity, &exps, 0, 3, true).unwrap();
    assert_eq!(low.into_affine(), g1_multiple(5));
}

#[test]
fn exponent_one_counts_only_where_trivial_is_handled() {
    let bases = Arc::new(vec![g1_multiple(9)]);
    let exps = small(&[1]);
    let with: G1 = window_sum(&(bases.clone(), 0usize), &FullDensity, &exps, 0, 3, true).unwrap();
    assert_eq!(with.into_affine(), g1_multiple(9));
    let without: G1 = window_sum(&(bases, 0usize), &FullDensity, &exps, 0, 3, false).unwrap();
    assert!(without.is_zero());
}

#[test]
fn windows_from_a_higher_bit_see_the_higher_bits() {
    let bases = Arc::new(vec![g1_multiple(1)]);
    let exps = small(&[0b1011_0110]);
    let sum: G1 = multiexp_inner(&(bases, 0usize), &FullDensity, &exps, 4, 3, false).unwrap();
    assert_eq!(sum.into_affine(), g1_multiple(0b1011));
}

#[test]
fn identity_with_a_nonzero_exponent_is_an_error() {
    let bases = Arc::new(vec![g1_multiple(1), G1Affine::zero(), g1_multiple(3)]);
    let exps = Arc::new(small(&[1, 6, 1]));
    let none: Option<()> = None;
    let r: Result<G1, _> = computed(multiexp(&(bases, 0usize), &FullDensity, exps, &none));
    assert_eq!(r.err(), Some(SynthesisError::UnexpectedIdentity));
}

#[test]
fn identity_in_a_high_window_is_an_error() {
    let bases = Arc::new(vec![G1Affine::zero()]);
    let exps = Arc::new(vec![Exponent::new([0, 0, 0, 1])]);
    let none: Option<()> = None;
    let r: Result<G1, _> = computed(multiexp(&(bases, 0usize), &FullDensity, exps, &none));
    assert_eq!(r.err(), Some(SynthesisError::UnexpectedIdentity));
}

#[test]
fn identity_with_exponent_one_is_an_error() {
    let bases = Arc::new(vec![G1Affine::zero()]);
    let none: Option<()> = None;
    let r: Result<G1, _> =
        computed(multiexp(&(bases, 0usize), &FullDensity, Arc::new(small(&[1])), &none));
    assert_eq!(r.err(), Some(SynthesisError::UnexpectedIdentity));
}

#[test]
fn identity_with_a_zero_exponent_is_passed_over() {
    let bases = Arc::new(vec![G1Affine::zero(), g1_multiple(2)]);
    let exps = Arc::new(small(&[0, 3]));
    let none: Option<()> = None;
    let sum: G1 = computed(multiexp(&(bases, 0usize), &FullDensity, exps, &none)).unwrap();
    assert_eq!(sum.into_affine(), g1_multiple(6));
}

#[test]
fn identity_at_an_inactive_position_is_never_reached() {
    let bases = Arc::new(vec![g1_multiple(2), g1_multiple(5)]);
    let exps = Arc::new(small(&[3, 9, 2]));
    let density = tracker(&[true, false, true]);
    let none: Option<()> = None;
    let sum: G1 = computed(multiexp(&(bases, 0usize), &density, exps, &none)).unwrap();
    assert_eq!(sum.into_affine(), g1_multiple(16));
}

#[test]
fn too_few_bases_are_a_malformed_source() {
    let bases = Arc::new(vec![g1_multiple(1)]);
    let exps = Arc::new(small(&[2, 3]));
    let none: Option<()> = None;
    let r: Result<G1, _> = computed(multiexp(&(bases, 0usize), &FullDensity, exps, &none));
    assert_eq!(r.err(), Some(SynthesisError::MalformedSource));
}

#[test]
fn too_few_bases_are_noticed_even_for_a_zero_exponent() {
    let bases: Arc<Vec<G1Affine>> = Arc::new(vec![]);
    let none: Option<()> = None;
    let r: Result<G1, _> =
        computed(multiexp(&(bases, 0usize), &FullDensity, Arc::new(small(&[0])), &none));
    assert_eq!(r.err(), Some(SynthesisError::MalformedSource));
}

#[test]
fn a_missing_base_before_an_identity_is_what_is_reported() {
    // the lowest window passes over the identity, whose low bits are zero,
    // and then finds no base for the second exponent
    let bases = Arc::new(vec![G1Affine::zero()]);
    let exps = Arc::new(small(&[8, 1]));
    let none: Option<()> = None;
    let r: Result<G1, _> = computed(multiexp(&(bases, 0usize), &FullDensity, exps, &none));
    assert_eq!(r.err(), Some(SynthesisError::MalformedSource));
}

#[test]
fn with_a_kernel_the_active_exponents_are_handed_out() {
    let bases = Arc::new(vec![g1_multiple(1), g1_multiple(2)]);
    let exps = Arc::new(small(&[11, 12, 13, 14]));
    let density = tracker(&[false, true, false, true]);
    let kern = Some("kernel");
    match multiexp::<G1, _, _, _>(&(bases.clone(), 1usize), &density, exps, &kern) {
        Multiexp::Accelerated(job) => {
            assert_eq!(*job.exponents, small(&[12, 14]));
            assert_eq!(job.n, 2);
            assert_eq!(job.skip, 1);
            assert_eq!(*job.bases, *bases);
        }
        Multiexp::Computed(_) => panic!("a kernel was given"),
    }
}

#[test]
fn a_density_shorter_than_the_exponents_hides_the_rest_from_the_kernel() {
    let exps = small(&[1, 2, 3]);
    assert_eq!(compact_exponents(&tracker(&[true, true]), &exps), small(&[1, 2]));
    assert_eq!(compact_exponents(&FullDensity, &exps), exps);
    assert_eq!(compact_exponents(&tracker(&[false, false, false]), &exps), small(&[]));
}

#[test]
fn the_answer_of_the_kernel_is_handed_on() {
    let ok: Result<u8, SynthesisError> = kernel_outcome(Ok(5u8));
    assert_eq!(ok, Ok(5));
    let gone = GPUError { msg: "device lost".to_string() };
    let err: Result<u8, SynthesisError> = kernel_outcome(Err(gone.clone()));
    assert_eq!(err, Err(SynthesisError::GPUError(gone)));
}

#[test]
fn the_self_check_compares_with_the_cpu() {
    let bases = Arc::new(vec![g1_multiple(1), g1_multiple(2)]);
    let exps = Arc::new(small(&[3, 4]));
    let right = g1_multiple(11).into_projective();
    let wrong = g1_multiple(12).into_projective();
    assert_eq!(agrees_with_cpu::<G1>(&bases, &exps, &right), Ok(true));
    assert_eq!(agrees_with_cpu::<G1>(&bases, &exps, &wrong), Ok(false));
    let short = Arc::new(vec![g1_multiple(1)]);
    assert_eq!(
        agrees_with_cpu::<G1>(&short, &exps, &right),
        Err(SynthesisError::MalformedSource)
    );
}

#[test]
fn the_self_check_is_run_once() {
    let mut cache = SupportCache::new();
    assert!(cache.must_check(false));
    assert!(!cache.must_check(true));
    cache.record(false);
    assert!(!cache.must_check(false));
    cache.record(true);
    assert_eq!(
        gpu_multiexp_supported("kernel", false, &cache),
        Err(SynthesisError::GPUError(GPUError { msg: "GPU Multiexp not supported!".to_string() }))
    );
    assert_eq!(gpu_multiexp_supported("kernel", true, &cache), Ok("kernel"));
}

#[test]
fn a_kernel_that_agrees_is_supported() {
    let mut cache = SupportCache::new();
    assert!(gpu_multiexp_supported("kernel", false, &cache).is_err());
    cache.record(true);
    assert_eq!(gpu_multiexp_supported("kernel", false, &cache), Ok("kernel"));
    assert_eq!(TEST_SIZE, 1024);
}

#[test]
fn windows_are_combined_by_doubling() {
    let this = g1_multiple(3).into_projective();
    let higher = g1_multiple(5).into_projective();
    assert_eq!(combine_windows(&this, higher, 3).into_affine(), g1_multiple(43));
    assert_eq!(combine_windows(&this, higher, 0).into_affine(), g1_multiple(8));
    assert_eq!(combine_windows(&G1::zero(), higher, 10).into_affine(), g1_multiple(5 * 1024));
}

#[test]
fn windows_summed_one_by_one_combine_to_the_whole() {
    let bases = Arc::new(vec![g1_multiple(1), g1_multiple(2)]);
    let exps = small(&[0b101_110_011, 0b000_001_111]);
    let source = (bases, 0usize);
    let low: G1 = window_sum(&source, &FullDensity, &exps, 0, 3, true).unwrap();
    let middle: G1 = window_sum(&source, &FullDensity, &exps, 3, 3, false).unwrap();
    let high: G1 = window_sum(&source, &FullDensity, &exps, 6, 3, false).unwrap();
    let sum = combine_windows(&low, combine_windows(&middle, high, 3), 3);
    assert_eq!(sum.into_affine(), g1_multiple(0b101_110_011 + 2 * 0b000_001_111));
}

#[test]
fn bits_above_the_last_window_are_not_seen() {
    // 255 bits are 85 windows of three bits, and 64 of four with one bit more
    let bases = Arc::new(vec![g1_multiple(1)]);
    let exps = vec![Exponent::new([0, 0, 0, 1 << 63])];
    let by_three: G1 = multiexp_inner(&(bases.clone(), 0usize), &FullDensity, &exps, 0, 3, true).unwrap();
    assert!(by_three.is_zero());
    let by_four: G1 = multiexp_inner(&(bases.clone(), 0usize), &FullDensity, &exps, 0, 4, true).unwrap();
    assert_eq!(by_four, G1Affine::one().mul(FrRepr([0, 0, 0, 1 << 63])));
}
