//! Sources of bases: sequences of affine points that are consumed from a
//! cursor onward, one point for each active exponent.

use crate::curve::Curve;
use crate::error::SynthesisError;
use std::sync::Arc;
use vstd::prelude::*;

verus! {

/// `Arc::clone`: another pointer to the same value.
#[verifier::external_body]
pub(crate) fn arc_clone<T>(a: &Arc<T>) -> (r: Arc<T>)
    ensures
        r == *a,
{
    a.clone()
}

/// A source of bases, read in order. A base is either added to an
/// accumulator or passed over without being looked at; there is no way
/// back.
pub trait Source<G: Curve> {
    /// All the bases of the source, consumed or not.
    spec fn bases(&self) -> Seq<G::Affine>;

    /// The number of bases already passed.
    spec fn position(&self) -> nat;

    /// The bases of a source can be counted in a `usize`.
    proof fn lemma_bases_fit(&self)
        ensures
            self.bases().len() <= usize::MAX,
    ;

    /// Adds the next base to `to` and passes it. Fails, changing nothing,
    /// when no base is left or when the base is the identity.
    fn add_assign_mixed(&mut self, to: &mut G) -> (r: Result<(), SynthesisError>)
        ensures
            final(self).bases() == old(self).bases(),
            old(self).position() >= old(self).bases().len() ==> {
                &&& r == Err::<(), SynthesisError>(SynthesisError::MalformedSource)
                &&& final(self).position() == old(self).position()
                &&& *final(to) == *old(to)
            },
            old(self).position() < old(self).bases().len() && G::affine_scalar(
                old(self).bases()[old(self).position() as int],
            ) == 0 ==> {
                &&& r == Err::<(), SynthesisError>(SynthesisError::UnexpectedIdentity)
                &&& final(self).position() == old(self).position()
                &&& *final(to) == *old(to)
            },
            old(self).position() < old(self).bases().len() && G::affine_scalar(
                old(self).bases()[old(self).position() as int],
            ) != 0 ==> {
                &&& r == Ok::<(), SynthesisError>(())
                &&& final(self).position() == old(self).position() + 1
                &&& final(to).scalar() == (old(to).scalar() + G::affine_scalar(
                    old(self).bases()[old(self).position() as int],
                )) % G::order()
            },
    ;

    /// Passes `amt` bases without looking at them. Fails, changing
    /// nothing, when no base is left. Where a base is left, the new
    /// position has to fit in a `usize`; it may lie past the last base.
    fn skip(&mut self, amt: usize) -> (r: Result<(), SynthesisError>)
        requires
            old(self).position() < old(self).bases().len() ==> old(self).position() + amt
                <= usize::MAX,
        ensures
            final(self).bases() == old(self).bases(),
            old(self).position() >= old(self).bases().len() ==> {
                &&& r == Err::<(), SynthesisError>(SynthesisError::MalformedSource)
                &&& final(self).position() == old(self).position()
            },
            old(self).position() < old(self).bases().len() ==> {
                &&& r == Ok::<(), SynthesisError>(())
                &&& final(self).position() == old(self).position() + amt
            },
    ;
}

/// Something from which a source of bases can be made, any number of
/// times.
pub trait SourceBuilder<G: Curve> {
    type Source: Source<G>;

    /// The bases that a source made from this will hold.
    spec fn bases(&self) -> Seq<G::Affine>;

    /// The position at which such a source starts.
    spec fn start(&self) -> nat;

    /// A fresh source at the starting position.
    fn new(&self) -> (source: Self::Source)
        ensures
            source.bases() == self.bases(),
            source.position() == self.start(),
    ;

    /// The bases and the starting position themselves.
    fn get(&self) -> (parts: (Arc<Vec<G::Affine>>, usize))
        ensures
            parts.0@ == self.bases(),
            parts.1 == self.start(),
    ;
}

impl<G: Curve> SourceBuilder<G> for (Arc<Vec<G::Affine>>, usize) {
    type Source = (Arc<Vec<G::Affine>>, usize);

    open spec fn bases(&self) -> Seq<G::Affine> {
        self.0@
    }

    open spec fn start(&self) -> nat {
        self.1 as nat
    }

    fn new(&self) -> (source: (Arc<Vec<G::Affine>>, usize)) {
        let source = (arc_clone(&self.0), self.1);
        proof {
            // the source holds what the builder holds
            assert(Source::<G>::bases(&source) == source.0@);
            assert(Source::<G>::position(&source) == source.1);
        }
        source
    }

    fn get(&self) -> (parts: (Arc<Vec<G::Affine>>, usize)) {
        (arc_clone(&self.0), self.1)
    }
}

impl<G: Curve> Source<G> for (Arc<Vec<G::Affine>>, usize) {
    open spec fn bases(&self) -> Seq<G::Affine> {
        self.0@
    }

    open spec fn position(&self) -> nat {
        self.1 as nat
    }

    proof fn lemma_bases_fit(&self) {
        let v: Vec<G::Affine> = *self.0;
        assert(v@.len() == v.len());
    }

    fn add_assign_mixed(&mut self, to: &mut G) -> (r: Result<(), SynthesisError>) {
        if self.0.len() <= self.1 {
            return Err(SynthesisError::MalformedSource);
        }
        if G::is_identity(&self.0[self.1]) {
            return Err(SynthesisError::UnexpectedIdentity);
        }
        to.add_assign_mixed(&self.0[self.1]);
        self.1 += 1;
        Ok(())
    }

    fn skip(&mut self, amt: usize) -> (r: Result<(), SynthesisError>) {
        if self.0.len() <= self.1 {
            return Err(SynthesisError::MalformedSource);
        }
        self.1 += amt;
        Ok(())
    }
}

} // verus!
