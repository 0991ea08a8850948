//! The interface the multiexponentiation engine needs from a group of points,
//! and the one the witness needs from the field of scalars.
//!
//! The engine adds points and doubles them, and it asks whether a base is the
//! identity; it never looks at coordinates. The groups it is used with are
//! the prime-order subgroups of a pairing-friendly curve, which are cyclic, so
//! a point is modelled by its scalar: the number `k` with `0 <= k < order()`
//! for which the point is `k` times the fixed generator. In that model the
//! group law is addition modulo `order()`.

use crate::exponent::Exponent;
use vstd::prelude::*;

verus! {

/// A prime field of scalars. An element is modelled by its value: the
/// number `v` with `0 <= v < modulus()` that it stands for.
pub trait ScalarField: Sized + Copy {
    /// The value of an element.
    spec fn value(&self) -> int;

    /// The number of elements of the field.
    spec fn modulus() -> int;

    proof fn modulus_is_positive()
        ensures
            Self::modulus() > 1,
    ;

    /// The element zero.
    fn zero() -> (z: Self)
        ensures
            z.value() == 0,
    ;

    /// The element one.
    fn one() -> (o: Self)
        ensures
            o.value() == 1,
    ;

    /// Whether two elements are the same.
    fn equals(&self, other: &Self) -> (b: bool)
        ensures
            b == (self.value() == other.value()),
    ;

    /// Adds `other` to this element.
    fn add_assign(&mut self, other: &Self)
        ensures
            final(self).value() == (old(self).value() + other.value()) % Self::modulus(),
    ;

    /// Multiplies this element by `other`.
    fn mul_assign(&mut self, other: &Self)
        ensures
            final(self).value() == (old(self).value() * other.value()) % Self::modulus(),
    ;

    /// The value of this element as an exponent.
    fn into_exponent(&self) -> (e: Exponent)
        ensures
            e.value() == self.value(),
            e.value() < Self::modulus(),
    ;
}

/// A group of points in projective form, with its affine form as `Affine`.
pub trait Curve: Sized {
    /// The affine form, in which bases are stored.
    type Affine;

    /// The field of the scalars by which points are multiplied.
    type Scalar: ScalarField;

    /// The scalar of a projective point.
    spec fn scalar(&self) -> int;

    /// The scalar of an affine point.
    spec fn affine_scalar(a: Self::Affine) -> int;

    /// The number of points in the group.
    spec fn order() -> int;

    /// The width in bits of an exponent of this group.
    spec fn exponent_bits() -> nat;

    proof fn order_is_positive()
        ensures
            Self::order() > 0,
    ;

    /// The field of scalars has as many elements as the group has points.
    proof fn order_is_modulus()
        ensures
            Self::order() == <Self::Scalar as ScalarField>::modulus(),
    ;

    /// An exponent has one bit at least, and no more than the 256 that an
    /// [`Exponent`] holds.
    proof fn exponent_bits_in_range()
        ensures
            1 <= Self::exponent_bits() <= 256,
    ;

    /// The width in bits of an exponent of this group.
    fn num_bits() -> (n: u32)
        ensures
            n == Self::exponent_bits(),
    ;

    /// The identity.
    fn zero() -> (z: Self)
        ensures
            z.scalar() == 0,
    ;

    /// Whether an affine point is the identity.
    fn is_identity(a: &Self::Affine) -> (b: bool)
        ensures
            b == (Self::affine_scalar(*a) == 0),
    ;

    /// Adds `other` to this point.
    fn add_assign(&mut self, other: &Self)
        ensures
            final(self).scalar() == (old(self).scalar() + other.scalar()) % Self::order(),
    ;

    /// Adds the affine point `other` to this point.
    fn add_assign_mixed(&mut self, other: &Self::Affine)
        ensures
            final(self).scalar() == (old(self).scalar() + Self::affine_scalar(*other))
                % Self::order(),
    ;

    /// Doubles this point.
    fn double(&mut self)
        ensures
            final(self).scalar() == (2 * old(self).scalar()) % Self::order(),
    ;

    /// Whether two values stand for the same point.
    fn same_point(&self, other: &Self) -> (b: bool)
        ensures
            b == (self.scalar() == other.scalar()),
    ;

    /// The affine point `a` taken `k` times.
    fn multiple(a: &Self::Affine, k: &Self::Scalar) -> (p: Self)
        ensures
            p.scalar() == (Self::affine_scalar(*a) * k.value()) % Self::order(),
    ;

    /// Takes this point `k` times.
    fn mul_assign(&mut self, k: &Self::Scalar)
        ensures
            final(self).scalar() == (old(self).scalar() * k.value()) % Self::order(),
    ;

    /// This point in affine form.
    fn into_affine(&self) -> (a: Self::Affine)
        ensures
            Self::affine_scalar(a) == self.scalar(),
    ;
}

} // verus!
