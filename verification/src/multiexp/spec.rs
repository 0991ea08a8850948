//! What a multiexponentiation computes, stated over scalars.
//!
//! A point stands in these definitions as its scalar, a base sequence as
//! the sequence of its scalars, a density as a sequence of flags, and an
//! exponent as a number. Each active position takes the next base from the
//! source, so the base of position `i` is the one at `start + rank(mask, i)`.

use crate::curve::Curve;
use crate::density::rank;
use crate::error::SynthesisError;
use crate::exponent::{bits_at, Exponent};
use vstd::arithmetic::power2::pow2;
use vstd::prelude::*;

verus! {

/// The scalars of a base sequence.
pub open spec fn scalars_of<G: Curve>(bases: Seq<G::Affine>) -> Seq<int> {
    Seq::new(bases.len(), |i: int| G::affine_scalar(bases[i]))
}

/// The numbers of an exponent sequence.
pub open spec fn values_of(exponents: Seq<Exponent>) -> Seq<nat> {
    Seq::new(exponents.len(), |i: int| exponents[i].value())
}

/// The sum, over the active positions below `n`, of the position's base
/// times the position's coefficient.
pub open spec fn dot(scalars: Seq<int>, start: int, mask: Seq<bool>, coefs: Seq<nat>, n: int) -> int
    decreases n,
{
    if n <= 0 {
        0
    } else {
        dot(scalars, start, mask, coefs, n - 1) + if mask[n - 1] {
            scalars[start + rank(mask, n - 1)] * coefs[n - 1]
        } else {
            0
        }
    }
}

/// The sum of base times exponent over all active positions: what a
/// position-by-position accumulation gives.
pub open spec fn naive_sum(scalars: Seq<int>, start: int, mask: Seq<bool>, exps: Seq<nat>) -> int {
    dot(scalars, start, mask, exps, exps.len() as int)
}

/// The first failure of a scan over the positions below `n`, if there is
/// one. An active position fails when no base is left for it, or when its
/// coefficient is not zero and its base is the identity.
pub open spec fn scan_failure(
    scalars: Seq<int>,
    start: int,
    mask: Seq<bool>,
    coefs: Seq<nat>,
    n: int,
) -> Option<SynthesisError>
    decreases n,
{
    if n <= 0 {
        None
    } else {
        match scan_failure(scalars, start, mask, coefs, n - 1) {
            Some(e) => Some(e),
            None => if !mask[n - 1] {
                None
            } else if start + rank(mask, n - 1) >= scalars.len() {
                Some(SynthesisError::MalformedSource)
            } else if coefs[n - 1] != 0 && scalars[start + rank(mask, n - 1)] == 0 {
                Some(SynthesisError::UnexpectedIdentity)
            } else {
                None
            },
        }
    }
}

/// What one exponent contributes to the window of `c` bits at `skip`: its
/// bits there. Zero contributes nothing anywhere, and one contributes
/// itself to the window that handles the trivial exponents and nothing to
/// the others.
pub open spec fn window_coef(e: nat, skip: nat, c: nat, trivial: bool) -> nat {
    if e == 0 {
        0
    } else if e == 1 {
        if trivial {
            1
        } else {
            0
        }
    } else {
        bits_at(e, skip, c)
    }
}

/// The contributions of all exponents to one window.
pub open spec fn window_coefs(exps: Seq<nat>, skip: nat, c: nat, trivial: bool) -> Seq<nat> {
    Seq::new(exps.len(), |i: int| window_coef(exps[i], skip, c, trivial))
}

/// The number of windows of `c` bits that are summed from bit `skip` on,
/// for exponents of `bits` bits: one, and then one more for each step of
/// `c` that stays below `bits`.
pub open spec fn windows_from(skip: nat, c: nat, bits: nat) -> nat
    decreases bits - skip,
{
    if c == 0 || skip + c >= bits {
        1
    } else {
        1 + windows_from(skip + c, c, bits)
    }
}

/// What one exponent contributes to `k` consecutive windows from `skip`
/// on, each weighted by its place: the `c * k` bits there.
pub open spec fn tail_coef(e: nat, skip: nat, c: nat, k: nat, trivial: bool) -> nat {
    window_coef(e, skip, c * k, trivial)
}

/// The contributions of all exponents to `k` consecutive windows.
pub open spec fn tail_coefs(exps: Seq<nat>, skip: nat, c: nat, k: nat, trivial: bool) -> Seq<nat> {
    window_coefs(exps, skip, c * k, trivial)
}

/// The failure of a run over `k` consecutive windows: that of the lowest
/// window that fails.
pub open spec fn tail_failure(
    scalars: Seq<int>,
    start: int,
    mask: Seq<bool>,
    exps: Seq<nat>,
    skip: nat,
    c: nat,
    k: nat,
    trivial: bool,
) -> Option<SynthesisError>
    decreases k,
{
    if k == 0 {
        None
    } else {
        match scan_failure(
            scalars,
            start,
            mask,
            window_coefs(exps, skip, c, trivial),
            exps.len() as int,
        ) {
            Some(e) => Some(e),
            None => tail_failure(scalars, start, mask, exps, skip + c, c, (k - 1) as nat, false),
        }
    }
}

/// The exponents of the active positions below `n`, in order.
pub open spec fn compacted(exponents: Seq<Exponent>, mask: Seq<bool>, n: int) -> Seq<Exponent>
    decreases n,
{
    if n <= 0 {
        Seq::empty()
    } else if mask[n - 1] {
        compacted(exponents, mask, n - 1).push(exponents[n - 1])
    } else {
        compacted(exponents, mask, n - 1)
    }
}

/// Whether every exponent is below `2^bits`.
pub open spec fn exponents_fit(exps: Seq<nat>, bits: nat) -> bool {
    forall|i: int| 0 <= i < exps.len() ==> #[trigger] exps[i] < pow2(bits)
}

} // verus!
