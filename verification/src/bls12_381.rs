//! The two source groups of BLS12-381 as instances of [`Curve`], and their
//! scalar field as an instance of [`ScalarField`].
//!
//! Everything here is a call into the curve library; Verus reads none of
//! those bodies, and what each contract claims is believed, not proved. The
//! claims on points rest on one fact of the library's documentation: a
//! value of `G1`, `G1Affine`, `G2` or `G2Affine` is a point of the subgroup
//! of prime order `r`. Such a group is cyclic, so each point is `k` times
//! the fixed generator `one()` for exactly one `k` with `0 <= k < r`; that
//! `k` is the point's scalar, and the group law adds scalars modulo `r`.
//! The claims on `Fr` say that it is the field of the numbers modulo `r`.

use crate::exponent::{limbs_value, Exponent};
use fff::{Field, PrimeField};
use groupy::{CurveAffine, CurveProjective};
use paired::bls12_381::{Fr, G1Affine, G2Affine, G1, G2};
use vstd::prelude::*;

verus! {

/// `paired::bls12_381::G1`: a point of the first group in projective
/// form. Nothing of its coordinates is seen here.
#[verifier::external_type_specification]
#[verifier::external_body]
pub struct ExG1(G1);

/// `paired::bls12_381::G1Affine`: a point of the first group in affine
/// form.
#[verifier::external_type_specification]
#[verifier::external_body]
pub struct ExG1Affine(G1Affine);

/// `paired::bls12_381::G2`: a point of the second group in projective
/// form.
#[verifier::external_type_specification]
#[verifier::external_body]
pub struct ExG2(G2);

/// `paired::bls12_381::G2Affine`: a point of the second group in affine
/// form.
#[verifier::external_type_specification]
#[verifier::external_body]
pub struct ExG2Affine(G2Affine);

/// `paired::bls12_381::Fr`: an element of the scalar field.
#[verifier::external_type_specification]
#[verifier::external_body]
pub struct ExFr(Fr);

/// The value of an element of the scalar field: the number below
/// [`subgroup_order`] that it stands for.
pub uninterp spec fn fr_value(x: Fr) -> int;

/// The scalar of a projective point of the first group: the `k` below
/// [`subgroup_order`] for which the point is `k` times `G1::one()`.
pub uninterp spec fn g1_scalar(p: G1) -> int;

/// The scalar of an affine point of the first group, in the same sense.
pub uninterp spec fn g1_affine_scalar(p: G1Affine) -> int;

/// The scalar of a projective point of the second group: the `k` below
/// [`subgroup_order`] for which the point is `k` times `G2::one()`.
pub uninterp spec fn g2_scalar(p: G2) -> int;

/// The scalar of an affine point of the second group, in the same sense.
pub uninterp spec fn g2_affine_scalar(p: G2Affine) -> int;

/// The prime `r`: the order of both groups and the modulus of the scalar
/// field.
pub open spec fn subgroup_order() -> int {
    52435875175126190479447740508185965837690552500527637822603658699938581184513int
}

/// `Fr::NUM_BITS`, the bit length of the modulus of the scalar field.
#[verifier::external_body]
fn fr_num_bits() -> (n: u32)
    ensures
        n == 255,
{
    Fr::NUM_BITS
}

/// `Fr::zero()`: the number zero.
#[verifier::external_body]
fn fr_zero() -> (z: Fr)
    ensures
        fr_value(z) == 0,
{
    Fr::zero()
}

/// `Fr::one()`: the number one.
#[verifier::external_body]
fn fr_one() -> (o: Fr)
    ensures
        fr_value(o) == 1,
{
    Fr::one()
}

/// `==` on `Fr`: whether two elements stand for the same number.
#[verifier::external_body]
fn fr_eq(a: &Fr, b: &Fr) -> (same: bool)
    ensures
        same == (fr_value(*a) == fr_value(*b)),
{
    a == b
}

/// `Fr::add_assign`: the sum modulo `r`.
#[verifier::external_body]
fn fr_add_assign(to: &mut Fr, other: &Fr)
    ensures
        fr_value(*final(to)) == (fr_value(*old(to)) + fr_value(*other)) % subgroup_order(),
{
    to.add_assign(other)
}

/// `Fr::mul_assign`: the product modulo `r`.
#[verifier::external_body]
fn fr_mul_assign(to: &mut Fr, other: &Fr)
    ensures
        fr_value(*final(to)) == (fr_value(*old(to)) * fr_value(*other)) % subgroup_order(),
{
    to.mul_assign(other)
}

/// `Fr::into_repr`: the number that the element stands for, in limbs. It
/// is below `r`.
#[verifier::external_body]
fn fr_into_repr(x: &Fr) -> (limbs: [u64; 4])
    ensures
        limbs_value(limbs[0], limbs[1], limbs[2], limbs[3]) == fr_value(*x),
        limbs_value(limbs[0], limbs[1], limbs[2], limbs[3]) < subgroup_order(),
{
    x.into_repr().0
}

/// `G1::zero()`: the point at infinity, whose scalar is zero.
#[verifier::external_body]
fn g1_zero() -> (z: G1)
    ensures
        g1_scalar(z) == 0,
{
    G1::zero()
}

/// `G1Affine::is_zero`: true for the point at infinity and for no other
/// point.
#[verifier::external_body]
fn g1_affine_is_zero(p: &G1Affine) -> (b: bool)
    ensures
        b == (g1_affine_scalar(*p) == 0),
{
    p.is_zero()
}

/// `G1::add_assign`: the group law, so the scalars add modulo the order.
#[verifier::external_body]
fn g1_add_assign(to: &mut G1, other: &G1)
    ensures
        g1_scalar(*final(to)) == (g1_scalar(*old(to)) + g1_scalar(*other)) % subgroup_order(),
{
    to.add_assign(other)
}

/// `G1::add_assign_mixed`: the group law with the second point in affine
/// form.
#[verifier::external_body]
fn g1_add_assign_mixed(to: &mut G1, other: &G1Affine)
    ensures
        g1_scalar(*final(to)) == (g1_scalar(*old(to)) + g1_affine_scalar(*other))
            % subgroup_order(),
{
    to.add_assign_mixed(other)
}

/// `G1::double`: the point added to itself.
#[verifier::external_body]
fn g1_double(p: &mut G1)
    ensures
        g1_scalar(*final(p)) == (2 * g1_scalar(*old(p))) % subgroup_order(),
{
    p.double()
}

/// `==` on `G1`: it compares the points, not their coordinates, so it holds
/// exactly when the scalars agree.
#[verifier::external_body]
fn g1_eq(a: &G1, b: &G1) -> (same: bool)
    ensures
        same == (g1_scalar(*a) == g1_scalar(*b)),
{
    a == b
}

/// `G1Affine::mul` by an element of `Fr`: the point added to itself as many
/// times as the value of the element says.
#[verifier::external_body]
fn g1_affine_mul(a: &G1Affine, k: &Fr) -> (p: G1)
    ensures
        g1_scalar(p) == (g1_affine_scalar(*a) * fr_value(*k)) % subgroup_order(),
{
    a.mul(*k)
}

/// `G1::mul_assign` by an element of `Fr`: the point added to itself as
/// many times as the value of the element says.
#[verifier::external_body]
fn g1_mul_assign(p: &mut G1, k: &Fr)
    ensures
        g1_scalar(*final(p)) == (g1_scalar(*old(p)) * fr_value(*k)) % subgroup_order(),
{
    p.mul_assign(*k)
}

/// `G1::into_affine`: the same point in affine form.
#[verifier::external_body]
fn g1_into_affine(p: &G1) -> (a: G1Affine)
    ensures
        g1_affine_scalar(a) == g1_scalar(*p),
{
    p.into_affine()
}

/// `G2::zero()`: the point at infinity, whose scalar is zero.
#[verifier::external_body]
fn g2_zero() -> (z: G2)
    ensures
        g2_scalar(z) == 0,
{
    G2::zero()
}

/// `G2Affine::is_zero`: true for the point at infinity and for no other
/// point.
#[verifier::external_body]
fn g2_affine_is_zero(p: &G2Affine) -> (b: bool)
    ensures
        b == (g2_affine_scalar(*p) == 0),
{
    p.is_zero()
}

/// `G2::add_assign`: the group law, so the scalars add modulo the order.
#[verifier::external_body]
fn g2_add_assign(to: &mut G2, other: &G2)
    ensures
        g2_scalar(*final(to)) == (g2_scalar(*old(to)) + g2_scalar(*other)) % subgroup_order(),
{
    to.add_assign(other)
}

/// `G2::add_assign_mixed`: the group law with the second point in affine
/// form.
#[verifier::external_body]
fn g2_add_assign_mixed(to: &mut G2, other: &G2Affine)
    ensures
        g2_scalar(*final(to)) == (g2_scalar(*old(to)) + g2_affine_scalar(*other))
            % subgroup_order(),
{
    to.add_assign_mixed(other)
}

/// `G2::double`: the point added to itself.
#[verifier::external_body]
fn g2_double(p: &mut G2)
    ensures
        g2_scalar(*final(p)) == (2 * g2_scalar(*old(p))) % subgroup_order(),
{
    p.double()
}

/// `==` on `G2`: it compares the points, not their coordinates, so it holds
/// exactly when the scalars agree.
#[verifier::external_body]
fn g2_eq(a: &G2, b: &G2) -> (same: bool)
    ensures
        same == (g2_scalar(*a) == g2_scalar(*b)),
{
    a == b
}

/// `G2Affine::mul` by an element of `Fr`: the point added to itself as many
/// times as the value of the element says.
#[verifier::external_body]
fn g2_affine_mul(a: &G2Affine, k: &Fr) -> (p: G2)
    ensures
        g2_scalar(p) == (g2_affine_scalar(*a) * fr_value(*k)) % subgroup_order(),
{
    a.mul(*k)
}

/// `G2::mul_assign` by an element of `Fr`: the point added to itself as
/// many times as the value of the element says.
#[verifier::external_body]
fn g2_mul_assign(p: &mut G2, k: &Fr)
    ensures
        g2_scalar(*final(p)) == (g2_scalar(*old(p)) * fr_value(*k)) % subgroup_order(),
{
    p.mul_assign(*k)
}

/// `G2::into_affine`: the same point in affine form.
#[verifier::external_body]
fn g2_into_affine(p: &G2) -> (a: G2Affine)
    ensures
        g2_affine_scalar(a) == g2_scalar(*p),
{
    p.into_affine()
}

impl crate::curve::ScalarField for Fr {
    open spec fn value(&self) -> int {
        fr_value(*self)
    }

    open spec fn modulus() -> int {
        subgroup_order()
    }

    proof fn modulus_is_positive() {
    }

    fn zero() -> (z: Fr) {
        fr_zero()
    }

    fn one() -> (o: Fr) {
        fr_one()
    }

    fn equals(&self, other: &Fr) -> (b: bool) {
        fr_eq(self, other)
    }

    fn add_assign(&mut self, other: &Fr) {
        fr_add_assign(self, other)
    }

    fn mul_assign(&mut self, other: &Fr) {
        fr_mul_assign(self, other)
    }

    fn into_exponent(&self) -> (e: Exponent) {
        Exponent::new(fr_into_repr(self))
    }
}

impl crate::curve::Curve for G1 {
    type Affine = G1Affine;

    type Scalar = Fr;

    open spec fn scalar(&self) -> int {
        g1_scalar(*self)
    }

    open spec fn affine_scalar(a: G1Affine) -> int {
        g1_affine_scalar(a)
    }

    open spec fn order() -> int {
        subgroup_order()
    }

    open spec fn exponent_bits() -> nat {
        255
    }

    proof fn order_is_positive() {
    }

    proof fn order_is_modulus() {
    }

    proof fn exponent_bits_in_range() {
    }

    fn num_bits() -> (n: u32) {
        fr_num_bits()
    }

    fn zero() -> (z: G1) {
        g1_zero()
    }

    fn is_identity(a: &G1Affine) -> (b: bool) {
        g1_affine_is_zero(a)
    }

    fn add_assign(&mut self, other: &G1) {
        g1_add_assign(self, other)
    }

    fn add_assign_mixed(&mut self, other: &G1Affine) {
        g1_add_assign_mixed(self, other)
    }

    fn double(&mut self) {
        g1_double(self)
    }

    fn same_point(&self, other: &G1) -> (b: bool) {
        g1_eq(self, other)
    }

    fn multiple(a: &G1Affine, k: &Fr) -> (p: G1) {
        g1_affine_mul(a, k)
    }

    fn mul_assign(&mut self, k: &Fr) {
        g1_mul_assign(self, k)
    }

    fn into_affine(&self) -> (a: G1Affine) {
        g1_into_affine(self)
    }
}

impl crate::curve::Curve for G2 {
    type Affine = G2Affine;

    type Scalar = Fr;

    open spec fn scalar(&self) -> int {
        g2_scalar(*self)
    }

    open spec fn affine_scalar(a: G2Affine) -> int {
        g2_affine_scalar(a)
    }

    open spec fn order() -> int {
        subgroup_order()
    }

    open spec fn exponent_bits() -> nat {
        255
    }

    proof fn order_is_positive() {
    }

    proof fn order_is_modulus() {
    }

    proof fn exponent_bits_in_range() {
    }

    fn num_bits() -> (n: u32) {
        fr_num_bits()
    }

    fn zero() -> (z: G2) {
        g2_zero()
    }

    fn is_identity(a: &G2Affine) -> (b: bool) {
        g2_affine_is_zero(a)
    }

    fn add_assign(&mut self, other: &G2) {
        g2_add_assign(self, other)
    }

    fn add_assign_mixed(&mut self, other: &G2Affine) {
        g2_add_assign_mixed(self, other)
    }

    fn double(&mut self) {
        g2_double(self)
    }

    fn same_point(&self, other: &G2) -> (b: bool) {
        g2_eq(self, other)
    }

    fn multiple(a: &G2Affine, k: &Fr) -> (p: G2) {
        g2_affine_mul(a, k)
    }

    fn mul_assign(&mut self, k: &Fr) {
        g2_mul_assign(self, k)
    }

    fn into_affine(&self) -> (a: G2Affine) {
        g2_into_affine(self)
    }
}

} // verus!
