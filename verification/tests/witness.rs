use bellperson::curve::ScalarField;
use bellperson::density::{DensityTracker, QueryDensity};
use bellperson::error::SynthesisError;
use bellperson::exponent::Exponent;
use bellperson::groth16::witness::{eval, exponents_of, ProvingAssignment};
use bellperson::lc::{Index, LinearCombination, Variable};
use paired::bls12_381::{Fr, FrRepr};

fn fr(n: u64) -> Fr {
    fff::PrimeField::from_repr(FrRepr::from(n)).unwrap()
}

fn minus_one() -> Fr {
    let mut m = fr(1);
    fff::Field::negate(&mut m);
    m
}

fn input(i: usize) -> Variable {
    Variable(Index::Input(i))
}

fn aux(i: usize) -> Variable {
    Variable(Index::Aux(i))
}

fn flags(density: &DensityTracker, n: usize) -> Vec<bool> {
    (0..n).map(|i| density.is_active(i)).collect()
}

fn tracker(n: usize) -> DensityTracker {
    let mut density = DensityTracker::new();
    for _ in 0..n {
        density.add_element();
    }
    density
}

#[test]
fn a_linear_combination_is_evaluated() {
    let lc = LinearCombination::zero()
        .with_term(fr(3), input(1))
        .with_term(fr(1), aux(0))
        .with_term(fr(2), aux(2))
        .with_term(fr(5), input(1));
    let inputs = [fr(1), fr(10)];
    let auxs = [fr(100), fr(1000), fr(10000)];
    let value = eval(&lc, None, None, &inputs, &auxs);
    assert_eq!(value, fr(30 + 100 + 20000 + 50));
}

#[test]
fn the_empty_combination_is_zero() {
    let lc: LinearCombination<Fr> = LinearCombination::zero();
    assert_eq!(eval(&lc, None, None, &[], &[]), fr(0));
}

#[test]
fn the_variables_of_a_combination_are_marked() {
    let lc = LinearCombination::zero()
        .with_term(fr(3), input(1))
        .with_term(fr(1), aux(0))
        .with_term(fr(0), aux(2))
        .with_term(fr(5), input(1));
    let inputs = [fr(1), fr(10)];
    let auxs = [fr(100), fr(1000), fr(10000)];
    let mut input_density = tracker(2);
    let mut aux_density = tracker(3);
    aux_density.inc(1);
    let value = eval(&lc, Some(&mut input_density), Some(&mut aux_density), &inputs, &auxs);
    assert_eq!(value, fr(180));
    assert_eq!(flags(&input_density, 2), vec![false, true]);
    assert_eq!(flags(&aux_density, 3), vec![true, true, true]);
    assert_eq!(input_density.get_total_density(), 1);
    assert_eq!(aux_density.get_total_density(), 3);
}

#[test]
fn one_kind_of_variable_can_be_marked_alone() {
    let lc = LinearCombination::zero().with_term(fr(3), input(0)).with_term(fr(1), aux(0));
    let mut aux_density = tracker(1);
    let value = eval(&lc, None, Some(&mut aux_density), &[fr(2)], &[fr(7)]);
    assert_eq!(value, fr(13));
    assert_eq!(aux_density.get_total_density(), 1);
    let mut input_density = tracker(1);
    eval(&lc, Some(&mut input_density), None, &[fr(2)], &[fr(7)]);
    assert_eq!(input_density.get_total_density(), 1);
}

#[test]
fn the_field_wraps_at_its_modulus() {
    // (r - 1) * 2 + 1 * 5 = 3 modulo r
    let lc = LinearCombination::zero().with_term(minus_one(), input(0)).with_term(fr(1), input(1));
    assert_eq!(eval(&lc, None, None, &[fr(2), fr(5)], &[]), fr(3));
    let mut sum = minus_one();
    ScalarField::add_assign(&mut sum, &fr(2));
    assert!(ScalarField::equals(&sum, &fr(1)));
    let mut product = minus_one();
    ScalarField::mul_assign(&mut product, &minus_one());
    assert!(ScalarField::equals(&product, &fr(1)));
    assert!(!ScalarField::equals(&product, &fr(2)));
    assert!(ScalarField::equals(&<Fr as ScalarField>::zero(), &fr(0)));
    assert!(ScalarField::equals(&<Fr as ScalarField>::one(), &fr(1)));
}

#[test]
fn a_scalar_becomes_the_exponent_of_its_value() {
    assert_eq!(ScalarField::into_exponent(&fr(77)), Exponent::from_u64(77));
    assert_eq!(
        ScalarField::into_exponent(&minus_one()),
        Exponent::new([
            0xffffffff00000000,
            0x53bda402fffe5bfe,
            0x3339d80809a1d805,
            0x73eda753299d7d48,
        ])
    );
    assert_eq!(
        exponents_of(&vec![fr(0), fr(1), fr(1 << 40)]),
        vec![Exponent::from_u64(0), Exponent::from_u64(1), Exponent::from_u64(1 << 40)]
    );
}

#[test]
fn variables_are_allocated_in_order() {
    let mut witness: ProvingAssignment<Fr> = ProvingAssignment::new();
    assert_eq!(witness.alloc_input(|| Ok(fr(1))), Ok(input(0)));
    assert_eq!(witness.alloc_aux(|| Ok(fr(5))), Ok(aux(0)));
    assert_eq!(witness.alloc_aux(|| Ok(fr(6))), Ok(aux(1)));
    assert_eq!(witness.alloc_input(|| Ok(fr(2))), Ok(input(1)));
    assert_eq!(witness.input_assignment, vec![fr(1), fr(2)]);
    assert_eq!(witness.aux_assignment, vec![fr(5), fr(6)]);
    assert_eq!(witness.a_aux_density.get_query_size(), Some(2));
    assert_eq!(witness.b_aux_density.get_query_size(), Some(2));
    assert_eq!(witness.b_input_density.get_query_size(), Some(2));
    assert_eq!(witness.a_aux_density.get_total_density(), 0);
}

#[test]
fn a_failed_allocation_changes_nothing() {
    let mut witness: ProvingAssignment<Fr> = ProvingAssignment::new();
    assert_eq!(witness.alloc_aux(|| Err(SynthesisError::UnexpectedIdentity)), Err(SynthesisError::UnexpectedIdentity));
    assert_eq!(witness.alloc_input(|| Err(SynthesisError::MalformedSource)), Err(SynthesisError::MalformedSource));
    assert!(witness.aux_assignment.is_empty());
    assert!(witness.input_assignment.is_empty());
    assert_eq!(witness.a_aux_density.get_query_size(), Some(0));
    assert_eq!(witness.b_input_density.get_query_size(), Some(0));
}

#[test]
fn a_constraint_is_evaluated_and_its_variables_marked() {
    let mut witness: ProvingAssignment<Fr> = ProvingAssignment::new();
    let one = witness.alloc_input(|| Ok(fr(1))).unwrap();
    let x = witness.alloc_aux(|| Ok(fr(3))).unwrap();
    let y = witness.alloc_aux(|| Ok(fr(9))).unwrap();
    let z = witness.alloc_aux(|| Ok(fr(4))).unwrap();
    // x * (x + 0 z) = y
    witness.enforce(
        |lc| lc.with_term(fr(1), x),
        |lc| lc.with_term(fr(1), x).with_term(fr(0), z).with_term(fr(0), one),
        |lc| lc.with_term(fr(1), y),
    );
    assert_eq!(witness.a, vec![fr(3)]);
    assert_eq!(witness.b, vec![fr(3)]);
    assert_eq!(witness.c, vec![fr(9)]);
    assert_eq!(flags(&witness.a_aux_density, 3), vec![true, false, false]);
    assert_eq!(flags(&witness.b_aux_density, 3), vec![true, false, true]);
    assert_eq!(flags(&witness.b_input_density, 1), vec![true]);
    assert_eq!(witness.a_aux_density.get_total_density(), 1);
    assert_eq!(witness.b_aux_density.get_total_density(), 2);
}

#[test]
fn each_input_gets_its_constraint() {
    let mut witness: ProvingAssignment<Fr> = ProvingAssignment::new();
    witness.alloc_input(|| Ok(fr(1))).unwrap();
    witness.alloc_input(|| Ok(fr(8))).unwrap();
    witness.alloc_aux(|| Ok(fr(3))).unwrap();
    witness.enforce_with(
        &LinearCombination::zero().with_term(fr(2), aux(0)),
        &LinearCombination::zero(),
        &LinearCombination::zero(),
    );
    witness.enforce_inputs();
    assert_eq!(witness.a, vec![fr(6), fr(1), fr(8)]);
    assert_eq!(witness.b, vec![fr(0), fr(0), fr(0)]);
    assert_eq!(witness.c, vec![fr(0), fr(0), fr(0)]);
    assert_eq!(witness.b_input_density.get_total_density(), 0);
    assert_eq!(witness.a_aux_density.get_total_density(), 1);
}
