//! The arithmetic behind the bucket method.

use crate::density::rank;
use crate::error::SynthesisError;
use crate::exponent::{bits_at, Exponent};
use crate::multiexp::spec::{
    compacted, dot, exponents_fit, naive_sum, scan_failure, tail_coef, tail_coefs, tail_failure,
    window_coef, window_coefs, windows_from,
};
use vstd::arithmetic::div_mod::*;
use vstd::arithmetic::mul::*;
use vstd::arithmetic::power2::*;
use vstd::prelude::*;

verus! {

/// The sum of the buckets from `b` upward.
pub open spec fn tail_sum(buckets: Seq<int>, b: int) -> int
    decreases buckets.len() - b,
{
    if b < 0 || b >= buckets.len() {
        0
    } else {
        buckets[b] + tail_sum(buckets, b + 1)
    }
}

/// The sum of the upward sums from `b` upward: bucket `b` once, bucket
/// `b + 1` twice, and so on. From zero it is the sum of `(j + 1)` times
/// bucket `j`.
pub open spec fn tail_weighted(buckets: Seq<int>, b: int) -> int
    decreases buckets.len() - b,
{
    if b < 0 || b >= buckets.len() {
        0
    } else {
        tail_sum(buckets, b) + tail_weighted(buckets, b + 1)
    }
}

/// Empty buckets sum to zero.
pub proof fn lemma_tail_zero(buckets: Seq<int>, b: int)
    requires
        0 <= b,
        forall|j: int| 0 <= j < buckets.len() ==> buckets[j] == 0,
    ensures
        tail_sum(buckets, b) == 0,
        tail_weighted(buckets, b) == 0,
    decreases buckets.len() - b,
{
    if b < buckets.len() {
        lemma_tail_zero(buckets, b + 1);
    }
}

/// Adding `s` to bucket `k` adds it once to each upward sum that holds the
/// bucket.
pub proof fn lemma_tail_sum_update(buckets: Seq<int>, k: int, s: int, b: int)
    requires
        0 <= k < buckets.len(),
        0 <= b,
    ensures
        tail_sum(buckets.update(k, buckets[k] + s), b) == tail_sum(buckets, b) + if b <= k {
            s
        } else {
            0
        },
    decreases buckets.len() - b,
{
    if b < buckets.len() {
        lemma_tail_sum_update(buckets, k, s, b + 1);
    }
}

/// Adding `s` to bucket `k` adds `(k - b + 1) * s` to the weighted sum
/// from `b`.
pub proof fn lemma_tail_weighted_update(buckets: Seq<int>, k: int, s: int, b: int)
    requires
        0 <= k < buckets.len(),
        0 <= b,
    ensures
        tail_weighted(buckets.update(k, buckets[k] + s), b) == tail_weighted(buckets, b) + if b
            <= k {
            (k - b + 1) * s
        } else {
            0
        },
    decreases buckets.len() - b,
{
    if b < buckets.len() {
        lemma_tail_weighted_update(buckets, k, s, b + 1);
        lemma_tail_sum_update(buckets, k, s, b);
        if b < k {
            assert((k - b + 1) * s == s + (k - (b + 1) + 1) * s) by (nonlinear_arith);
        } else if b == k {
            assert((k - b + 1) * s == s) by (nonlinear_arith)
                requires
                    b == k,
            ;
        }
    }
}

/// A sum looks only at the coefficients below `n`.
pub proof fn lemma_dot_ext(
    scalars: Seq<int>,
    start: int,
    mask: Seq<bool>,
    a: Seq<nat>,
    b: Seq<nat>,
    n: int,
)
    requires
        forall|i: int| 0 <= i < n ==> a[i] == b[i],
    ensures
        dot(scalars, start, mask, a, n) == dot(scalars, start, mask, b, n),
    decreases n,
{
    if n > 0 {
        lemma_dot_ext(scalars, start, mask, a, b, n - 1);
    }
}

/// Sums are linear in their coefficients.
pub proof fn lemma_dot_linear(
    scalars: Seq<int>,
    start: int,
    mask: Seq<bool>,
    a: Seq<nat>,
    b: Seq<nat>,
    m: nat,
    ab: Seq<nat>,
    n: int,
)
    requires
        forall|i: int| 0 <= i < n ==> ab[i] == a[i] + m * b[i],
    ensures
        dot(scalars, start, mask, ab, n) == dot(scalars, start, mask, a, n) + m * dot(
            scalars,
            start,
            mask,
            b,
            n,
        ),
    decreases n,
{
    if n > 0 {
        lemma_dot_linear(scalars, start, mask, a, b, m, ab, n - 1);
        let s = scalars[start + rank(mask, n - 1)];
        let x = a[n - 1] as int;
        let y = b[n - 1] as int;
        let z = ab[n - 1] as int;
        let d = dot(scalars, start, mask, b, n - 1);
        assert(s * z == s * x + m * (s * y)) by (nonlinear_arith)
            requires
                z == x + m * y,
        ;
        assert(m * (d + s * y) == m * d + m * (s * y)) by (nonlinear_arith);
    }
}

/// A scan that has failed stays failed, with the same failure.
pub proof fn lemma_scan_failure_sticks(
    scalars: Seq<int>,
    start: int,
    mask: Seq<bool>,
    coefs: Seq<nat>,
    i: int,
    n: int,
)
    requires
        i <= n,
        scan_failure(scalars, start, mask, coefs, i).is_some(),
    ensures
        scan_failure(scalars, start, mask, coefs, n) == scan_failure(
            scalars,
            start,
            mask,
            coefs,
            i,
        ),
    decreases n - i,
{
    if i < n {
        lemma_scan_failure_sticks(scalars, start, mask, coefs, i, n - 1);
    }
}

/// A scan succeeds exactly when every active position finds a base, and
/// finds one other than the identity where its coefficient is not zero.
pub proof fn lemma_scan_succeeds(
    scalars: Seq<int>,
    start: int,
    mask: Seq<bool>,
    coefs: Seq<nat>,
    n: int,
)
    ensures
        scan_failure(scalars, start, mask, coefs, n).is_none() <==> (forall|i: int|
            0 <= i < n && #[trigger] mask[i] ==> start + rank(mask, i) < scalars.len() && !(coefs[i]
                != 0 && scalars[start + rank(mask, i)] == 0)),
    decreases n,
{
    if n > 0 {
        lemma_scan_succeeds(scalars, start, mask, coefs, n - 1);
        if scan_failure(scalars, start, mask, coefs, n).is_none() {
            assert forall|i: int| 0 <= i < n && #[trigger] mask[i] implies start + rank(mask, i)
                < scalars.len() && !(coefs[i] != 0 && scalars[start + rank(mask, i)] == 0) by {}
        } else {
            if scan_failure(scalars, start, mask, coefs, n - 1).is_none() {
                assert(mask[n - 1]);
            }
        }
    }
}

/// The rank does not fall as the positions go up.
pub proof fn lemma_rank_grows(mask: Seq<bool>, i: int, n: int)
    requires
        i <= n,
    ensures
        rank(mask, i) <= rank(mask, n),
    decreases n - i,
{
    if i < n {
        lemma_rank_grows(mask, i, n - 1);
    }
}

/// With a base for every active position, a scan fails only on an
/// identity.
pub proof fn lemma_scan_failure_kind(
    scalars: Seq<int>,
    start: int,
    mask: Seq<bool>,
    coefs: Seq<nat>,
    len: int,
    n: int,
)
    requires
        0 <= n <= len,
        start + rank(mask, len) <= scalars.len(),
    ensures
        scan_failure(scalars, start, mask, coefs, n).is_none() || scan_failure(
            scalars,
            start,
            mask,
            coefs,
            n,
        ) == Some(SynthesisError::UnexpectedIdentity),
    decreases n,
{
    if n > 0 {
        lemma_scan_failure_kind(scalars, start, mask, coefs, len, n - 1);
        lemma_rank_grows(mask, n, len);
    }
}

/// An identity at an active position whose exponent shows a bit in some
/// window is reported, as long as there is a base for every active
/// position.
pub proof fn lemma_identity_found(
    scalars: Seq<int>,
    start: int,
    mask: Seq<bool>,
    exps: Seq<nat>,
    skip: nat,
    c: nat,
    k: nat,
    trivial: bool,
    i: int,
)
    requires
        0 <= i < exps.len(),
        mask[i],
        start + rank(mask, exps.len() as int) <= scalars.len(),
        scalars[start + rank(mask, i)] == 0,
        tail_coef(exps[i], skip, c, k, trivial) != 0,
        k >= 1,
    ensures
        tail_failure(scalars, start, mask, exps, skip, c, k, trivial) == Some(
            SynthesisError::UnexpectedIdentity,
        ),
    decreases k,
{
    let n = exps.len() as int;
    let coefs = window_coefs(exps, skip, c, trivial);
    lemma_scan_failure_kind(scalars, start, mask, coefs, n, n);
    lemma_scan_succeeds(scalars, start, mask, coefs, n);
    if window_coef(exps[i], skip, c, trivial) != 0 {
        assert(coefs[i] != 0);
    } else {
        if k == 1 {
            lemma_tail_coef_single(exps[i], skip, c, trivial);
        } else {
            lemma_tail_coef_split(exps[i], skip, c, k, trivial);
            let above = tail_coef(exps[i], skip + c, c, (k - 1) as nat, false);
            assert(above != 0) by (nonlinear_arith)
                requires
                    pow2(c) * above != 0,
            ;
            lemma_identity_found(
                scalars,
                start,
                mask,
                exps,
                skip + c,
                c,
                (k - 1) as nat,
                false,
                i,
            );
        }
    }
}

/// There are as many compacted exponents as active positions.
pub proof fn lemma_compacted_len(exponents: Seq<Exponent>, mask: Seq<bool>, n: int)
    ensures
        compacted(exponents, mask, n).len() == rank(mask, n),
    decreases n,
{
    if n > 0 {
        lemma_compacted_len(exponents, mask, n - 1);
    }
}

/// The bits of `k` windows are the bits of the lowest window and, one
/// window higher in weight, the bits of the `k - 1` windows above it.
pub proof fn lemma_tail_coef_split(e: nat, skip: nat, c: nat, k: nat, trivial: bool)
    requires
        k >= 2,
    ensures
        tail_coef(e, skip, c, k, trivial) == window_coef(e, skip, c, trivial) + pow2(c) * tail_coef(
            e,
            skip + c,
            c,
            (k - 1) as nat,
            false,
        ),
{
    if e >= 2 {
        let x = (e / pow2(skip)) as int;
        let pc = pow2(c) as int;
        let rest = (c * (k - 1)) as nat;
        let pr = pow2(rest) as int;
        lemma_pow2_pos(skip);
        lemma_pow2_pos(c);
        lemma_pow2_pos(rest);
        assert(c * k == c + rest) by (nonlinear_arith)
            requires
                rest == c * (k - 1),
        ;
        lemma_pow2_adds(c, rest);
        lemma_pow2_adds(skip, c);
        lemma_div_denominator(e as int, pow2(skip) as int, pc);
        lemma_mod_breakdown(x, pc, pr);
    } else {
        assert(pow2(c) * 0 == 0);
    }
}

/// A single window is its own tail.
pub proof fn lemma_tail_coef_single(e: nat, skip: nat, c: nat, trivial: bool)
    ensures
        tail_coef(e, skip, c, 1, trivial) == window_coef(e, skip, c, trivial),
{
    assert(c * 1 == c);
}

/// The windows from `skip` on reach the top bit.
pub proof fn lemma_windows_cover(skip: nat, c: nat, bits: nat)
    requires
        c >= 1,
    ensures
        windows_from(skip, c, bits) >= 1,
        skip + c * windows_from(skip, c, bits) >= bits,
    decreases bits - skip,
{
    if skip + c >= bits {
        assert(c * 1 == c);
    } else {
        lemma_windows_cover(skip + c, c, bits);
        let k = windows_from(skip + c, c, bits);
        assert(c * (1 + k) == c + c * k) by (nonlinear_arith);
    }
}

/// Windows that reach the top bit see the whole of an exponent that fits.
pub proof fn lemma_tail_coef_whole(e: nat, c: nat, k: nat, bits: nat)
    requires
        e < pow2(bits),
        bits <= c * k,
    ensures
        tail_coef(e, 0, c, k, true) == e,
{
    lemma2_to64();
    if bits < c * k {
        lemma_pow2_strictly_increases(bits, c * k);
    }
    lemma_small_mod(e, pow2(c * k));
}

/// With all exponents fitting, the windows from bit zero that reach the
/// top bit sum to the naive sum.
pub proof fn lemma_tail_is_naive(
    scalars: Seq<int>,
    start: int,
    mask: Seq<bool>,
    exps: Seq<nat>,
    c: nat,
    k: nat,
    bits: nat,
)
    requires
        exponents_fit(exps, bits),
        bits <= c * k,
    ensures
        dot(scalars, start, mask, tail_coefs(exps, 0, c, k, true), exps.len() as int) == naive_sum(
            scalars,
            start,
            mask,
            exps,
        ),
{
    let coefs = tail_coefs(exps, 0, c, k, true);
    assert forall|i: int| 0 <= i < exps.len() implies coefs[i] == exps[i] by {
        lemma_tail_coef_whole(exps[i], c, k, bits);
    }
    lemma_dot_ext(scalars, start, mask, coefs, exps, exps.len() as int);
}

/// The sum over `k` windows is the sum over the lowest window and `2^c`
/// times the sum over the `k - 1` windows above it.
pub proof fn lemma_tail_split(
    scalars: Seq<int>,
    start: int,
    mask: Seq<bool>,
    exps: Seq<nat>,
    skip: nat,
    c: nat,
    k: nat,
    trivial: bool,
)
    requires
        k >= 2,
    ensures
        dot(scalars, start, mask, tail_coefs(exps, skip, c, k, trivial), exps.len() as int) == dot(
            scalars,
            start,
            mask,
            window_coefs(exps, skip, c, trivial),
            exps.len() as int,
        ) + pow2(c) * dot(
            scalars,
            start,
            mask,
            tail_coefs(exps, skip + c, c, (k - 1) as nat, false),
            exps.len() as int,
        ),
{
    let whole = tail_coefs(exps, skip, c, k, trivial);
    let low = window_coefs(exps, skip, c, trivial);
    let high = tail_coefs(exps, skip + c, c, (k - 1) as nat, false);
    assert forall|i: int| 0 <= i < exps.len() implies whole[i] == low[i] + pow2(c) * high[i] by {
        lemma_tail_coef_split(exps[i], skip, c, k, trivial);
    }
    lemma_dot_linear(scalars, start, mask, low, high, pow2(c), whole, exps.len() as int);
}

} // verus!
