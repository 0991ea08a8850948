use bellperson::error::SynthesisError;
use bellperson::source::{Source, SourceBuilder};
use groupy::{CurveAffine, CurveProjective};
use paired::bls12_381::{FrRepr, G1Affine, G1};
use std::sync::Arc;

fn g1_multiple(k: u64) -> G1Affine {
    G1Affine::one().mul(FrRepr::from(k)).into_affine()
}

#[test]
fn bases_are_added_in_order() {
    let bases = Arc::new(vec![g1_multiple(1), g1_multiple(2), g1_multiple(4)]);
    let mut source = <(Arc<Vec<G1Affine>>, usize) as SourceBuilder<G1>>::new(&(bases, 1));
    let mut acc = G1::zero();
    assert_eq!(Source::<G1>::add_assign_mixed(&mut source, &mut acc), Ok(()));
    assert_eq!(acc.into_affine(), g1_multiple(2));
    assert_eq!(Source::<G1>::add_assign_mixed(&mut source, &mut acc), Ok(()));
    assert_eq!(acc.into_affine(), g1_multiple(6));
    assert_eq!(source.1, 3);
    assert_eq!(
        Source::<G1>::add_assign_mixed(&mut source, &mut acc),
        Err(SynthesisError::MalformedSource)
    );
    assert_eq!(acc.into_affine(), g1_multiple(6));
    assert_eq!(source.1, 3);
}

#[test]
fn an_identity_is_not_added() {
    let mut source = (Arc::new(vec![G1Affine::zero(), g1_multiple(2)]), 0usize);
    let mut acc = g1_multiple(5).into_projective();
    assert_eq!(
        Source::<G1>::add_assign_mixed(&mut source, &mut acc),
        Err(SynthesisError::UnexpectedIdentity)
    );
    assert_eq!(acc.into_affine(), g1_multiple(5));
    assert_eq!(source.1, 0);
}

#[test]
fn bases_are_passed_over_unseen() {
    let mut source = (Arc::new(vec![G1Affine::zero(), g1_multiple(2)]), 0usize);
    assert_eq!(Source::<G1>::skip(&mut source, 1), Ok(()));
    assert_eq!(source.1, 1);
    assert_eq!(Source::<G1>::skip(&mut source, 5), Ok(()));
    assert_eq!(source.1, 6);
    assert_eq!(Source::<G1>::skip(&mut source, 1), Err(SynthesisError::MalformedSource));
    assert_eq!(source.1, 6);
}

#[test]
fn a_builder_gives_its_parts() {
    let bases = Arc::new(vec![g1_multiple(1), g1_multiple(2)]);
    let builder = (bases.clone(), 1usize);
    let (same, start) = SourceBuilder::<G1>::get(&builder);
    assert!(Arc::ptr_eq(&same, &bases));
    assert_eq!(start, 1);
}
