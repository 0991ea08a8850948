//! The choice of a backend before each multiexponentiation of a proof.
//!
//! A proof holds the device lock from its start and asks before each of
//! its multiexponentiations whether it may still use the device. The first
//! time it may not, it falls back: it releases the device lock at once and
//! computes on the CPU from then on, to the end of the proof, whatever the
//! later answers are.

use crate::curve::{Curve, ScalarField};
use crate::density::QueryDensity;
use crate::error::SynthesisError;
use crate::exponent::Exponent;
use crate::modular::{lemma_mod_add, lemma_mod_mul};
use crate::multiexp::{is_multiexp, multiexp, size_matches, Multiexp};
use crate::source::SourceBuilder;
use std::sync::Arc;
use vstd::prelude::*;

verus! {

/// Where a multiexponentiation is computed.
#[derive(Clone, Copy, Debug, PartialEq, Eq, Structural)]
pub enum Backend {
    /// By the bucket method on the CPU.
    Cpu,
    /// By the accelerator kernel, where the process has one.
    Accelerator,
}

/// What is decided before one multiexponentiation.
#[derive(Clone, Copy, Debug, PartialEq, Eq, Structural)]
pub struct Selection {
    /// Where to compute.
    pub backend: Backend,
    /// Whether the device lock is to be released before computing.
    pub release_device: bool,
}

/// The decision for one multiexponentiation, from whether the proof has
/// fallen back already and whether the device may be used.
pub open spec fn selection(fallen_back: bool, may_use_device: bool) -> Selection {
    if fallen_back {
        Selection { backend: Backend::Cpu, release_device: false }
    } else if !may_use_device {
        Selection { backend: Backend::Cpu, release_device: true }
    } else {
        Selection { backend: Backend::Accelerator, release_device: false }
    }
}

/// Whether a proof has fallen back after the first `n` of the answers
/// `may_use`.
pub open spec fn fallen_back_after(may_use: Seq<bool>, n: int) -> bool
    decreases n,
{
    if n <= 0 {
        false
    } else {
        fallen_back_after(may_use, n - 1) || !may_use[n - 1]
    }
}

/// The decision for the multiexponentiation that follows the first `n`.
pub open spec fn selection_at(may_use: Seq<bool>, n: int) -> Selection {
    selection(fallen_back_after(may_use, n), may_use[n])
}

/// A proof has fallen back exactly when one of the answers so far was no.
pub proof fn lemma_fallen_back(may_use: Seq<bool>, n: int)
    ensures
        fallen_back_after(may_use, n) <==> exists|i: int| 0 <= i < n && !may_use[i],
    decreases n,
{
    if n > 0 {
        lemma_fallen_back(may_use, n - 1);
        if fallen_back_after(may_use, n - 1) {
            let i = choose|i: int| 0 <= i < n - 1 && !may_use[i];
        } else if !may_use[n - 1] {
            assert(0 <= n - 1 < n && !may_use[n - 1]);
        }
    }
}

/// The fallback is sticky: from the first multiexponentiation before
/// which the device may not be used, every one is computed on the CPU,
/// whatever the later answers are.
pub proof fn fallback_is_sticky(may_use: Seq<bool>, i: int, j: int)
    requires
        0 <= i <= j < may_use.len(),
        !may_use[i],
    ensures
        selection_at(may_use, j).backend == Backend::Cpu,
{
    lemma_fallen_back(may_use, j);
}

/// The device lock is released once: before the first multiexponentiation
/// before which the device may not be used, and before no other.
pub proof fn device_is_released_once(may_use: Seq<bool>, j: int)
    requires
        0 <= j < may_use.len(),
    ensures
        selection_at(may_use, j).release_device <==> (!may_use[j] && forall|i: int|
            0 <= i < j ==> may_use[i]),
{
    lemma_fallen_back(may_use, j);
}

/// The memory of one proof: whether it has fallen back to the CPU.
#[derive(Debug)]
pub struct BackendSelector {
    keep_cpu: bool,
}

impl BackendSelector {
    /// Whether the proof has fallen back.
    pub closed spec fn fallen_back(&self) -> bool {
        self.keep_cpu
    }

    /// The selector of a proof that starts: it has not fallen back.
    pub fn new() -> (selector: BackendSelector)
        ensures
            !selector.fallen_back(),
    {
        BackendSelector { keep_cpu: false }
    }

    /// Whether the proof has fallen back.
    pub fn has_fallen_back(&self) -> (fallen: bool)
        ensures
            fallen == self.fallen_back(),
    {
        self.keep_cpu
    }

    /// Decides for the next multiexponentiation, given whether the device
    /// may be used now. A proof that has fallen back stays so.
    pub fn select(&mut self, may_use_device: bool) -> (choice: Selection)
        ensures
            choice == selection(old(self).fallen_back(), may_use_device),
            final(self).fallen_back() == (old(self).fallen_back() || !may_use_device),
    {
        if self.keep_cpu {
            Selection { backend: Backend::Cpu, release_device: false }
        } else if !may_use_device {
            self.keep_cpu = true;
            Selection { backend: Backend::Cpu, release_device: true }
        } else {
            Selection { backend: Backend::Accelerator, release_device: false }
        }
    }
}

/// One multiexponentiation of a proof: the backend is chosen, and the
/// multiexponentiation goes on there. On the CPU it is computed whether a
/// kernel is at hand or not; on the accelerator it is handed to the kernel
/// if there is one, and computed on the CPU if there is none.
///
/// The first part of the result says whether the caller is to release the
/// device lock. It is decided before anything is computed, so that the
/// caller can release before it takes the result up.
pub fn select_and_multiexp<G: Curve, S: SourceBuilder<G>, D: QueryDensity, K>(
    selector: &mut BackendSelector,
    may_use_device: bool,
    bases: &S,
    density: &D,
    exponents: Arc<Vec<Exponent>>,
    kern: &Option<K>,
) -> (r: (bool, Multiexp<G>))
    requires
        kern.is_none() || old(selector).fallen_back() || !may_use_device ==> size_matches(
            density,
            exponents@.len(),
        ),
    ensures
        r.0 == selection(old(selector).fallen_back(), may_use_device).release_device,
        final(selector).fallen_back() == (old(selector).fallen_back() || !may_use_device),
        is_multiexp::<G, S, D>(
            r.1,
            bases,
            density,
            exponents@,
            kern.is_some() && selection(old(selector).fallen_back(), may_use_device).backend
                == Backend::Accelerator,
        ),
{
    let choice = selector.select(may_use_device);
    let m = match choice.backend {
        Backend::Cpu => {
            let none: Option<K> = None;
            multiexp(bases, density, exponents, &none)
        },
        Backend::Accelerator => multiexp(bases, density, exponents, kern),
    };
    (choice.release_device, m)
}

/// A verifying key whose `delta` is the identity in either group is
/// refused: a proof made with it could be forged.
pub fn check_verifying_key<A: Curve, B: Curve>(delta_g1: &A::Affine, delta_g2: &B::Affine) -> (r:
    Result<(), SynthesisError>)
    ensures
        r == (if A::affine_scalar(*delta_g1) == 0 || B::affine_scalar(*delta_g2) == 0 {
            Err::<(), SynthesisError>(SynthesisError::UnexpectedIdentity)
        } else {
            Ok::<(), SynthesisError>(())
        }),
{
    if A::is_identity(delta_g1) || B::is_identity(delta_g2) {
        return Err(SynthesisError::UnexpectedIdentity);
    }
    Ok(())
}

/// The verifying key of the parameters with which a proof is made.
pub struct VerifyingKey<A: Curve, B: Curve> {
    pub alpha_g1: A::Affine,
    pub beta_g1: A::Affine,
    pub beta_g2: B::Affine,
    pub gamma_g2: B::Affine,
    pub delta_g1: A::Affine,
    pub delta_g2: B::Affine,
    pub ic: Vec<A::Affine>,
}

/// A proof: two points of the first group and one of the second.
pub struct Proof<A: Curve, B: Curve> {
    pub a: A::Affine,
    pub b: B::Affine,
    pub c: A::Affine,
}

/// The sums that the eight multiexponentiations of a proof give.
pub struct Sums<A, B> {
    /// The quotient polynomial over the H query.
    pub h: A,
    /// The auxiliary values over the L query.
    pub l: A,
    /// The inputs over the A query.
    pub a_inputs: A,
    /// The auxiliary values over the A query.
    pub a_aux: A,
    /// The inputs over the B query in the first group.
    pub b_g1_inputs: A,
    /// The auxiliary values over the B query in the first group.
    pub b_g1_aux: A,
    /// The inputs over the B query in the second group.
    pub b_g2_inputs: B,
    /// The auxiliary values over the B query in the second group.
    pub b_g2_aux: B,
}

/// The scalar of the first point of a proof, before it is reduced:
/// `delta r + alpha + a`.
pub open spec fn proof_a<A: Curve, B: Curve>(vk: VerifyingKey<A, B>, r: int, sums: Sums<A, B>) -> int {
    A::affine_scalar(vk.delta_g1) * r + A::affine_scalar(vk.alpha_g1) + (sums.a_inputs.scalar()
        + sums.a_aux.scalar())
}

/// The scalar of the second point of a proof, before it is reduced:
/// `delta s + beta + b`.
pub open spec fn proof_b<A: Curve, B: Curve>(vk: VerifyingKey<A, B>, s: int, sums: Sums<A, B>) -> int {
    B::affine_scalar(vk.delta_g2) * s + B::affine_scalar(vk.beta_g2) + (sums.b_g2_inputs.scalar()
        + sums.b_g2_aux.scalar())
}

/// The scalar of the third point of a proof, before it is reduced:
/// `delta r s + alpha s + beta r + a s + b r + h + l`.
pub open spec fn proof_c<A: Curve, B: Curve>(
    vk: VerifyingKey<A, B>,
    r: int,
    s: int,
    sums: Sums<A, B>,
) -> int {
    A::affine_scalar(vk.delta_g1) * (r * s) + A::affine_scalar(vk.alpha_g1) * s + A::affine_scalar(
        vk.beta_g1,
    ) * r + (sums.a_inputs.scalar() + sums.a_aux.scalar()) * s + (sums.b_g1_inputs.scalar()
        + sums.b_g1_aux.scalar()) * r + sums.h.scalar() + sums.l.scalar()
}

/// Puts a proof together from the sums of its multiexponentiations and
/// the blinding scalars `r` and `s`. A verifying key whose `delta` is the
/// identity in either group is refused.
pub fn assemble_proof<F: ScalarField, A: Curve<Scalar = F>, B: Curve<Scalar = F>>(
    vk: &VerifyingKey<A, B>,
    r: F,
    s: F,
    sums: Sums<A, B>,
) -> (made: Result<Proof<A, B>, SynthesisError>)
    ensures
        match made {
            Ok(p) => {
                &&& A::affine_scalar(vk.delta_g1) != 0 && B::affine_scalar(vk.delta_g2) != 0
                &&& A::affine_scalar(p.a) == proof_a(*vk, r.value(), sums) % A::order()
                &&& B::affine_scalar(p.b) == proof_b(*vk, s.value(), sums) % B::order()
                &&& A::affine_scalar(p.c) == proof_c(*vk, r.value(), s.value(), sums) % A::order()
            },
            Err(e) => {
                &&& e == SynthesisError::UnexpectedIdentity
                &&& A::affine_scalar(vk.delta_g1) == 0 || B::affine_scalar(vk.delta_g2) == 0
            },
        },
{
    match check_verifying_key::<A, B>(&vk.delta_g1, &vk.delta_g2) {
        Ok(()) => {},
        Err(e) => {
            return Err(e);
        },
    }
    let ghost m = F::modulus();
    let ghost delta1 = A::affine_scalar(vk.delta_g1);
    let ghost alpha1 = A::affine_scalar(vk.alpha_g1);
    let ghost beta1 = A::affine_scalar(vk.beta_g1);
    let ghost a_sum = sums.a_inputs.scalar() + sums.a_aux.scalar();
    let ghost b1_sum = sums.b_g1_inputs.scalar() + sums.b_g1_aux.scalar();
    let ghost b2_sum = sums.b_g2_inputs.scalar() + sums.b_g2_aux.scalar();
    proof {
        F::modulus_is_positive();
        A::order_is_modulus();
        B::order_is_modulus();
    }
    let mut g_a = A::multiple(&vk.delta_g1, &r);
    g_a.add_assign_mixed(&vk.alpha_g1);
    let mut g_b = B::multiple(&vk.delta_g2, &s);
    g_b.add_assign_mixed(&vk.beta_g2);
    proof {
        lemma_mod_add(delta1 * r.value(), alpha1, m);
        lemma_mod_add(B::affine_scalar(vk.delta_g2) * s.value(), B::affine_scalar(vk.beta_g2), m);
    }
    let mut rs = r;
    rs.mul_assign(&s);
    let mut g_c = A::multiple(&vk.delta_g1, &rs);
    let alpha_s = A::multiple(&vk.alpha_g1, &s);
    g_c.add_assign(&alpha_s);
    let beta_r = A::multiple(&vk.beta_g1, &r);
    g_c.add_assign(&beta_r);
    let ghost c1 = delta1 * (r.value() * s.value()) + alpha1 * s.value() + beta1 * r.value();
    proof {
        lemma_mod_mul(delta1, r.value() * s.value(), m);
        lemma_mod_add(delta1 * (r.value() * s.value()), alpha1 * s.value(), m);
        lemma_mod_add(
            delta1 * (r.value() * s.value()) + alpha1 * s.value(),
            beta1 * r.value(),
            m,
        );
        assert(g_c.scalar() == c1 % m);
    }
    let mut a_answer = sums.a_inputs;
    a_answer.add_assign(&sums.a_aux);
    g_a.add_assign(&a_answer);
    a_answer.mul_assign(&s);
    g_c.add_assign(&a_answer);
    proof {
        lemma_mod_add(delta1 * r.value() + alpha1, a_sum, m);
        lemma_mod_mul(a_sum, s.value(), m);
        lemma_mod_add(c1, a_sum * s.value(), m);
    }
    let mut b1_answer = sums.b_g1_inputs;
    b1_answer.add_assign(&sums.b_g1_aux);
    let mut b2_answer = sums.b_g2_inputs;
    b2_answer.add_assign(&sums.b_g2_aux);
    g_b.add_assign(&b2_answer);
    b1_answer.mul_assign(&r);
    g_c.add_assign(&b1_answer);
    proof {
        lemma_mod_add(
            B::affine_scalar(vk.delta_g2) * s.value() + B::affine_scalar(vk.beta_g2),
            b2_sum,
            m,
        );
        lemma_mod_mul(b1_sum, r.value(), m);
        lemma_mod_add(c1 + a_sum * s.value(), b1_sum * r.value(), m);
    }
    g_c.add_assign(&sums.h);
    g_c.add_assign(&sums.l);
    proof {
        lemma_mod_add(c1 + a_sum * s.value() + b1_sum * r.value(), sums.h.scalar(), m);
        lemma_mod_add(
            c1 + a_sum * s.value() + b1_sum * r.value() + sums.h.scalar(),
            sums.l.scalar(),
            m,
        );
    }
    Ok(Proof { a: g_a.into_affine(), b: g_b.into_affine(), c: g_c.into_affine() })
}

} // verus!
