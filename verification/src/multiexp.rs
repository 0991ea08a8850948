//! Multiexponentiation: the sum of bases times exponents over the active
//! positions, by the bucket method.

pub mod lemmas;
pub mod spec;
pub mod width;

use crate::curve::Curve;
use crate::density::{mask_of, rank, FullDensity, QueryDensity};
use crate::error::{GPUError, SynthesisError};
use crate::exponent::Exponent;
use crate::modular::{lemma_mod_add, lemma_mod_combine, lemma_mod_scale};
use crate::multiexp::lemmas::{
    lemma_compacted_len, lemma_identity_found, lemma_rank_grows, lemma_scan_failure_sticks,
    lemma_tail_is_naive, lemma_tail_split, lemma_tail_weighted_update, lemma_tail_zero,
    lemma_windows_cover, tail_sum, tail_weighted,
};
use crate::multiexp::spec::{
    compacted, dot, exponents_fit, naive_sum, scalars_of, scan_failure, tail_coef, tail_coefs,
    tail_failure, values_of, window_coef, window_coefs, windows_from,
};
use crate::multiexp::width::{width_of, window_width};
use crate::source::{arc_clone, Source, SourceBuilder};
use std::sync::Arc;
use vstd::arithmetic::power2::{
    lemma2_to64, lemma_pow2_pos, lemma_pow2_strictly_increases, lemma_pow2_unfold, pow2,
};
use vstd::bits::{lemma_usize_pow2_no_overflow, lemma_usize_shl_is_mul};
use vstd::prelude::*;

verus! {

/// Whether `r` reports `failure` where there is one, and otherwise holds the
/// point whose scalar is `value` reduced modulo the order of the group.
pub open spec fn is_outcome<G: Curve>(
    r: Result<G, SynthesisError>,
    failure: Option<SynthesisError>,
    value: int,
) -> bool {
    match r {
        Ok(g) => failure.is_none() && g.scalar() == value % G::order(),
        Err(e) => failure == Some(e),
    }
}

/// The failure of the window of `c` bits at `skip`, if it fails.
pub open spec fn window_failure<G: Curve, S: SourceBuilder<G>, D: QueryDensity>(
    bases: &S,
    density: &D,
    exponents: Seq<Exponent>,
    skip: nat,
    c: nat,
    trivial: bool,
) -> Option<SynthesisError> {
    scan_failure(
        scalars_of::<G>(bases.bases()),
        bases.start() as int,
        mask_of(density, exponents.len()),
        window_coefs(values_of(exponents), skip, c, trivial),
        exponents.len() as int,
    )
}

/// The sum of the window of `c` bits at `skip`.
pub open spec fn window_value<G: Curve, S: SourceBuilder<G>, D: QueryDensity>(
    bases: &S,
    density: &D,
    exponents: Seq<Exponent>,
    skip: nat,
    c: nat,
    trivial: bool,
) -> int {
    dot(
        scalars_of::<G>(bases.bases()),
        bases.start() as int,
        mask_of(density, exponents.len()),
        window_coefs(values_of(exponents), skip, c, trivial),
        exponents.len() as int,
    )
}

/// The failure of the windows of `c` bits from `skip` upward: that of the
/// lowest window that fails.
pub open spec fn windows_failure<G: Curve, S: SourceBuilder<G>, D: QueryDensity>(
    bases: &S,
    density: &D,
    exponents: Seq<Exponent>,
    skip: nat,
    c: nat,
    trivial: bool,
) -> Option<SynthesisError> {
    tail_failure(
        scalars_of::<G>(bases.bases()),
        bases.start() as int,
        mask_of(density, exponents.len()),
        values_of(exponents),
        skip,
        c,
        windows_from(skip, c, G::exponent_bits()),
        trivial,
    )
}

/// The sum of the windows of `c` bits from `skip` upward, each weighted by
/// its place: over the active positions, the base times the bits that
/// the windows see of the exponent.
pub open spec fn windows_value<G: Curve, S: SourceBuilder<G>, D: QueryDensity>(
    bases: &S,
    density: &D,
    exponents: Seq<Exponent>,
    skip: nat,
    c: nat,
    trivial: bool,
) -> int {
    dot(
        scalars_of::<G>(bases.bases()),
        bases.start() as int,
        mask_of(density, exponents.len()),
        tail_coefs(
            values_of(exponents),
            skip,
            c,
            windows_from(skip, c, G::exponent_bits()),
            trivial,
        ),
        exponents.len() as int,
    )
}

/// The naive sum: over the active positions, the base times the exponent.
pub open spec fn naive_value<G: Curve, S: SourceBuilder<G>, D: QueryDensity>(
    bases: &S,
    density: &D,
    exponents: Seq<Exponent>,
) -> int {
    naive_sum(
        scalars_of::<G>(bases.bases()),
        bases.start() as int,
        mask_of(density, exponents.len()),
        values_of(exponents),
    )
}

/// The number of bits that windows of `c` bits from bit zero see of an
/// exponent: the width of the field of `G`, rounded up to whole windows.
pub open spec fn seen_bits<G: Curve>(c: nat) -> nat {
    c * windows_from(0, c, G::exponent_bits())
}

/// Whether windows of `c` bits see every exponent whole.
pub open spec fn seen_whole<G: Curve>(exponents: Seq<Exponent>, c: nat) -> bool {
    exponents_fit(values_of(exponents), seen_bits::<G>(c))
}

/// Whether every exponent is within the width of the field of `G`.
pub open spec fn within_field<G: Curve>(exponents: Seq<Exponent>) -> bool {
    exponents_fit(values_of(exponents), G::exponent_bits())
}

/// Windows see an exponent whole that is within the width of the field.
pub proof fn field_is_seen_whole<G: Curve>(exponents: Seq<Exponent>, c: nat)
    requires
        c >= 1,
        within_field::<G>(exponents),
    ensures
        seen_whole::<G>(exponents, c),
{
    lemma_windows_cover(0, c, G::exponent_bits());
    if G::exponent_bits() < seen_bits::<G>(c) {
        lemma_pow2_strictly_increases(G::exponent_bits(), seen_bits::<G>(c));
    }
}

/// The sum of one window: over the active positions, the base times the
/// `c` bits of the exponent that start at bit `skip`.
///
/// Each active position takes one base from the source. The base is only
/// looked at where the bits are not zero; it is then put into the bucket
/// of that number, and the buckets are summed, each weighted by its
/// number, by running sums from the top. An exponent of one goes straight
/// to the sum in the window that handles the trivial exponents, and
/// nowhere in the others.
pub fn window_sum<G: Curve, S: SourceBuilder<G>, D: QueryDensity>(
    bases: &S,
    density: &D,
    exponents: &Vec<Exponent>,
    skip: u32,
    c: u32,
    handle_trivial: bool,
) -> (r: Result<G, SynthesisError>)
    requires
        0 < c < usize::BITS,
    ensures
        is_outcome(
            r,
            window_failure::<G, S, D>(
                bases,
                density,
                exponents@,
                skip as nat,
                c as nat,
                handle_trivial,
            ),
            window_value::<G, S, D>(
                bases,
                density,
                exponents@,
                skip as nat,
                c as nat,
                handle_trivial,
            ),
        ),
{
    let n = exponents.len();
    let ghost scalars = scalars_of::<G>(bases.bases());
    let ghost start = bases.start() as int;
    let ghost mask = mask_of(density, n as nat);
    let ghost coefs = window_coefs(values_of(exponents@), skip as nat, c as nat, handle_trivial);
    proof {
        G::order_is_positive();
        lemma_usize_pow2_no_overflow(c as nat);
        lemma_usize_shl_is_mul(1, c as usize);
    }
    let bucket_count: usize = (1usize << c) - 1;
    let mut buckets: Vec<G> = Vec::new();
    while buckets.len() < bucket_count
        invariant
            buckets.len() <= bucket_count,
            forall|j: int| 0 <= j < buckets.len() ==> (#[trigger] buckets[j]).scalar() == 0,
        decreases bucket_count - buckets.len(),
    {
        buckets.push(G::zero());
    }
    let mut acc = G::zero();
    let mut source = bases.new();
    let ghost mut acc_sum: int = 0;
    let ghost mut sums: Seq<int> = Seq::new(bucket_count as nat, |j: int| 0int);
    proof {
        lemma_tail_zero(sums, 0);
    }
    let mut i: usize = 0;
    while i < n
        invariant
            i <= n,
            n == exponents.len(),
            G::order() > 0,
            0 < c < usize::BITS,
            bucket_count + 1 == pow2(c as nat),
            scalars == scalars_of::<G>(bases.bases()),
            start == bases.start(),
            mask == mask_of(density, n as nat),
            coefs == window_coefs(values_of(exponents@), skip as nat, c as nat, handle_trivial),
            source.bases() == bases.bases(),
            source.position() == start + rank(mask, i as int),
            scan_failure(scalars, start, mask, coefs, i as int).is_none(),
            acc.scalar() == acc_sum % G::order(),
            buckets.len() == bucket_count,
            sums.len() == bucket_count,
            forall|j: int|
                0 <= j < bucket_count ==> (#[trigger] buckets[j]).scalar() == sums[j] % G::order(),
            acc_sum + tail_weighted(sums, 0) == dot(scalars, start, mask, coefs, i as int),
        decreases n - i,
    {
        if density.is_active(i) {
            let e = &exponents[i];
            let ghost p = start + rank(mask, i as int);
            let ghost s = scalars[p];
            proof {
                source.lemma_bases_fit();
                assert(coefs[i as int] == window_coef(
                    e.value(),
                    skip as nat,
                    c as nat,
                    handle_trivial,
                ));
            }
            let trivial = e.is_one();
            let d: u64 = if e.is_zero() || trivial {
                0
            } else {
                e.digit(skip, c)
            };
            let step = if trivial && handle_trivial {
                let step = source.add_assign_mixed(&mut acc);
                proof {
                    if step.is_ok() {
                        lemma_mod_add(acc_sum, s, G::order());
                        acc_sum = acc_sum + s;
                    }
                }
                step
            } else if d != 0 {
                let k = (d - 1) as usize;
                let step = source.add_assign_mixed(&mut buckets[k]);
                proof {
                    if step.is_ok() {
                        lemma_mod_add(sums[k as int], s, G::order());
                        lemma_tail_weighted_update(sums, k as int, s, 0);
                        sums = sums.update(k as int, sums[k as int] + s);
                        assert(s * (d as int) == (k + 1) * s) by (nonlinear_arith)
                            requires
                                d == k + 1,
                        ;
                    }
                }
                step
            } else {
                source.skip(1)
            };
            match step {
                Err(err) => {
                    proof {
                        lemma_scan_failure_sticks(scalars, start, mask, coefs, i + 1, n as int);
                    }
                    return Err(err);
                },
                Ok(()) => {},
            }
        }
        i += 1;
    }
    // Summation by parts: with the buckets a, b, c from the top,
    // 3a + 2b + 1c = a + (a + b) + ((a + b) + c).
    let mut running_sum = G::zero();
    let ghost mut run: int = 0;
    let ghost scanned = acc_sum;
    let mut b: usize = bucket_count;
    while b > 0
        invariant
            b <= bucket_count,
            G::order() > 0,
            buckets.len() == bucket_count,
            sums.len() == bucket_count,
            forall|j: int|
                0 <= j < bucket_count ==> (#[trigger] buckets[j]).scalar() == sums[j] % G::order(),
            run == tail_sum(sums, b as int),
            acc_sum == scanned + tail_weighted(sums, b as int),
            running_sum.scalar() == run % G::order(),
            acc.scalar() == acc_sum % G::order(),
        decreases b,
    {
        b -= 1;
        running_sum.add_assign(&buckets[b]);
        acc.add_assign(&running_sum);
        proof {
            lemma_mod_add(run, sums[b as int], G::order());
            run = run + sums[b as int];
            lemma_mod_add(acc_sum, run, G::order());
            acc_sum = acc_sum + run;
        }
    }
    Ok(acc)
}

/// The sum of all windows of `c` bits from bit `skip` upward: the window
/// at `skip`, and then, each `c` bits higher and `2^c` times heavier than
/// the one before, the windows at `skip + c`, `skip + 2 c` and so on while
/// they start below the top bit of an exponent. Only the first of them
/// handles the trivial exponents, if `handle_trivial` says so.
///
/// It fails as the lowest failing window fails. From bit zero, with the
/// trivial exponents handled, the result is the naive sum, whatever the
/// window width, as long as the windows see every exponent whole; they do
/// so for every exponent within the width of the field.
pub fn multiexp_inner<G: Curve, S: SourceBuilder<G>, D: QueryDensity>(
    bases: &S,
    density: &D,
    exponents: &Vec<Exponent>,
    skip: u32,
    c: u32,
    handle_trivial: bool,
) -> (r: Result<G, SynthesisError>)
    requires
        0 < c < usize::BITS,
        skip + c <= u32::MAX,
    ensures
        is_outcome(
            r,
            windows_failure::<G, S, D>(
                bases,
                density,
                exponents@,
                skip as nat,
                c as nat,
                handle_trivial,
            ),
            windows_value::<G, S, D>(
                bases,
                density,
                exponents@,
                skip as nat,
                c as nat,
                handle_trivial,
            ),
        ),
        skip == 0 && handle_trivial && seen_whole::<G>(exponents@, c as nat) ==> is_outcome(
            r,
            windows_failure::<G, S, D>(bases, density, exponents@, 0, c as nat, true),
            naive_value::<G, S, D>(bases, density, exponents@),
        ),
    decreases G::exponent_bits() - skip,
{
    let ghost scalars = scalars_of::<G>(bases.bases());
    let ghost start = bases.start() as int;
    let ghost mask = mask_of(density, exponents@.len());
    let ghost exps = values_of(exponents@);
    let ghost k = windows_from(skip as nat, c as nat, G::exponent_bits());
    proof {
        G::order_is_positive();
        G::exponent_bits_in_range();
        lemma_windows_cover(skip as nat, c as nat, G::exponent_bits());
        if skip == 0 && handle_trivial && seen_whole::<G>(exponents@, c as nat) {
            lemma_tail_is_naive(scalars, start, mask, exps, c as nat, k, (c as nat) * k);
        }
    }
    let this: G = match window_sum(bases, density, exponents, skip, c, handle_trivial) {
        Ok(sum) => sum,
        Err(e) => {
            return Err(e);
        },
    };
    let next: u32 = skip + c;
    if next >= G::num_bits() {
        proof {
            assert((c as nat) * k == c as nat) by (nonlinear_arith)
                requires
                    k == 1,
            ;
            assert(tail_failure(
                scalars,
                start,
                mask,
                exps,
                (skip + c) as nat,
                c as nat,
                0,
                false,
            ).is_none());
        }
        return Ok(this);
    }
    let higher: G = match multiexp_inner(bases, density, exponents, next, c, false) {
        Ok(sum) => sum,
        Err(e) => {
            return Err(e);
        },
    };
    let ghost low = dot(
        scalars,
        start,
        mask,
        window_coefs(exps, skip as nat, c as nat, handle_trivial),
        exps.len() as int,
    );
    let ghost high = dot(
        scalars,
        start,
        mask,
        tail_coefs(exps, next as nat, c as nat, (k - 1) as nat, false),
        exps.len() as int,
    );
    proof {
        lemma_tail_split(scalars, start, mask, exps, skip as nat, c as nat, k, handle_trivial);
        lemma_mod_combine(pow2(c as nat) as int, high, low, G::order());
    }
    Ok(combine_windows(&this, higher, c))
}

/// The sum of a window and the windows above it, from the sum of those: it
/// is doubled once for each of the `c` bits of the window, and the window
/// is added.
pub fn combine_windows<G: Curve>(this: &G, higher: G, c: u32) -> (sum: G)
    ensures
        sum.scalar() == (pow2(c as nat) * higher.scalar() + this.scalar()) % G::order(),
{
    let ghost high = higher.scalar();
    let mut sum = higher;
    proof {
        G::order_is_positive();
    }
    let mut j: u32 = 0;
    while j < c
        invariant
            j <= c,
            G::order() > 0,
            j == 0 ==> sum.scalar() == high,
            j > 0 ==> sum.scalar() == (pow2(j as nat) * high) % G::order(),
        decreases c - j,
    {
        sum.double();
        proof {
            lemma2_to64();
            lemma_mod_scale(2, pow2(j as nat) * high, G::order());
            lemma_pow2_unfold((j + 1) as nat);
            assert(2 * (pow2(j as nat) * high) == (2 * pow2(j as nat)) * high) by (nonlinear_arith);
            assert(j == 0 ==> pow2(j as nat) * high == high) by (nonlinear_arith)
                requires
                    j == 0 ==> pow2(j as nat) == 1,
            ;
        }
        j += 1;
    }
    sum.add_assign(this);
    proof {
        lemma2_to64();
        lemma_mod_add(pow2(c as nat) * high, this.scalar(), G::order());
        assert(c == 0 ==> pow2(c as nat) * high == high) by (nonlinear_arith)
            requires
                c == 0 ==> pow2(c as nat) == 1,
        ;
    }
    sum
}

/// An identity among the bases is reported, not summed away: where an
/// active position has the identity for its base and an exponent of which
/// the windows see a bit, the bucket method fails with the unexpected
/// identity, whatever the window width. The windows see a bit of every
/// exponent within the width of the field but zero. This holds of sources
/// that have a base for every active position; a source that runs out may
/// be reported for that instead.
pub proof fn identity_is_reported<G: Curve, S: SourceBuilder<G>, D: QueryDensity>(
    bases: &S,
    density: &D,
    exponents: Seq<Exponent>,
    c: nat,
    i: int,
)
    requires
        c >= 1,
        0 <= i < exponents.len(),
        density.active(i),
        exponents[i].value() % pow2(seen_bits::<G>(c)) != 0,
        bases.start() + rank(mask_of(density, exponents.len()), exponents.len() as int)
            <= bases.bases().len(),
        G::affine_scalar(
            bases.bases()[(bases.start() + rank(mask_of(density, exponents.len()), i)) as int],
        ) == 0,
    ensures
        windows_failure::<G, S, D>(bases, density, exponents, 0, c, true) == Some(
            SynthesisError::UnexpectedIdentity,
        ),
{
    let scalars = scalars_of::<G>(bases.bases());
    let start = bases.start() as int;
    let mask = mask_of(density, exponents.len());
    let exps = values_of(exponents);
    let k = windows_from(0, c, G::exponent_bits());
    lemma_windows_cover(0, c, G::exponent_bits());
    lemma_rank_grows(mask, i + 1, exponents.len() as int);
    assert(exps[i] / pow2(0) == exps[i]) by {
        lemma2_to64();
    }
    lemma_pow2_pos(c * k);
    let e = exps[i];
    if e == 0 {
        assert(0nat % pow2(c * k) == 0) by {
            vstd::arithmetic::div_mod::lemma_small_mod(0, pow2(c * k));
        }
    } else if e == 1 {
        assert(tail_coef(e, 0, c, k, true) == 1);
    } else {
        assert(tail_coef(e, 0, c, k, true) == (e / pow2(0)) % pow2(c * k));
    }
    lemma_identity_found(scalars, start, mask, exps, 0, c, k, true, i);
}

/// The work that an accelerator kernel is handed: the bases with the
/// position at which to start, and the exponents of the active positions.
pub struct KernelJob<A> {
    /// All the bases of the source.
    pub bases: Arc<Vec<A>>,
    /// The exponents of the active positions, in order.
    pub exponents: Arc<Vec<Exponent>>,
    /// The position of the first base to use.
    pub skip: usize,
    /// The number of exponents.
    pub n: usize,
}

/// How a multiexponentiation went on: it was computed here, or it waits
/// for the accelerator.
pub enum Multiexp<G: Curve> {
    /// The result of the bucket method on the CPU.
    Computed(Result<G, SynthesisError>),
    /// The work for the accelerator kernel.
    Accelerated(KernelJob<G::Affine>),
}

/// Whether `job` is the work of the kernel for these inputs: all the
/// bases, the starting position, and the exponents of the active
/// positions in order.
pub open spec fn is_kernel_job<G: Curve, S: SourceBuilder<G>, D: QueryDensity>(
    job: KernelJob<G::Affine>,
    bases: &S,
    density: &D,
    exponents: Seq<Exponent>,
) -> bool {
    &&& job.bases@ == bases.bases()
    &&& job.skip == bases.start()
    &&& job.exponents@ == compacted(
        exponents,
        mask_of(density, exponents.len()),
        exponents.len() as int,
    )
    &&& job.n == job.exponents@.len()
}

/// Whether `r` is what the bucket method gives for these inputs with the
/// window width chosen for their number: the failure of the lowest
/// failing window, or else the sum of what the windows see, which is the
/// naive sum where the windows see every exponent whole.
pub open spec fn is_cpu_result<G: Curve, S: SourceBuilder<G>, D: QueryDensity>(
    r: Result<G, SynthesisError>,
    bases: &S,
    density: &D,
    exponents: Seq<Exponent>,
) -> bool {
    &&& is_outcome(
        r,
        windows_failure::<G, S, D>(bases, density, exponents, 0, width_of(exponents.len()), true),
        windows_value::<G, S, D>(bases, density, exponents, 0, width_of(exponents.len()), true),
    )
    &&& seen_whole::<G>(exponents, width_of(exponents.len())) ==> is_outcome(
        r,
        windows_failure::<G, S, D>(bases, density, exponents, 0, width_of(exponents.len()), true),
        naive_value::<G, S, D>(bases, density, exponents),
    )
}

/// Whether `m` is how a multiexponentiation of these inputs goes on, with
/// a kernel at hand or without.
pub open spec fn is_multiexp<G: Curve, S: SourceBuilder<G>, D: QueryDensity>(
    m: Multiexp<G>,
    bases: &S,
    density: &D,
    exponents: Seq<Exponent>,
    with_kernel: bool,
) -> bool {
    match m {
        Multiexp::Accelerated(job) => with_kernel && is_kernel_job::<G, S, D>(
            job,
            bases,
            density,
            exponents,
        ),
        Multiexp::Computed(r) => !with_kernel && is_cpu_result::<G, S, D>(
            r,
            bases,
            density,
            exponents,
        ),
    }
}

/// Whether a density that knows its size knows `n` positions.
pub open spec fn size_matches<D: QueryDensity>(density: &D, n: nat) -> bool {
    match density.query_size() {
        Some(size) => size == n,
        None => true,
    }
}

/// The exponents of the active positions, in order.
pub fn compact_exponents<D: QueryDensity>(density: &D, exponents: &Vec<Exponent>) -> (active: Vec<
    Exponent,
>)
    ensures
        active@ == compacted(
            exponents@,
            mask_of(density, exponents@.len()),
            exponents@.len() as int,
        ),
        active@.len() == rank(mask_of(density, exponents@.len()), exponents@.len() as int),
{
    let n = exponents.len();
    let ghost mask = mask_of(density, n as nat);
    let mut active: Vec<Exponent> = Vec::new();
    let mut i: usize = 0;
    while i < n
        invariant
            i <= n,
            n == exponents.len(),
            mask == mask_of(density, n as nat),
            active@ == compacted(exponents@, mask, i as int),
        decreases n - i,
    {
        if density.is_active(i) {
            active.push(exponents[i]);
        }
        i += 1;
    }
    proof {
        lemma_compacted_len(exponents@, mask, n as int);
    }
    active
}

/// Multiexponentiation: the sum, over the active positions, of the base
/// times the exponent. The bases are taken from the source in order, one
/// for each active position.
///
/// With a kernel at hand nothing is computed here: the exponents are
/// compacted to the active ones and handed out, with the bases and the
/// starting position, as the work of the kernel. Without one the sum is
/// computed by the bucket method, with windows as wide as
/// [`window_width`] says for the number of exponents. A density that
/// knows its size must then know as many positions as there are
/// exponents.
pub fn multiexp<G: Curve, S: SourceBuilder<G>, D: QueryDensity, K>(
    bases: &S,
    density: &D,
    exponents: Arc<Vec<Exponent>>,
    kern: &Option<K>,
) -> (m: Multiexp<G>)
    requires
        kern.is_none() ==> size_matches(density, exponents@.len()),
    ensures
        is_multiexp::<G, S, D>(m, bases, density, exponents@, kern.is_some()),
{
    if kern.is_some() {
        let active = compact_exponents(density, &exponents);
        let n = active.len();
        let (bases, skip) = bases.get();
        return Multiexp::Accelerated(KernelJob { bases, exponents: Arc::new(active), skip, n });
    }
    Multiexp::Computed(bucket_method(bases, density, &exponents))
}

/// The bucket method with the window width chosen for the number of
/// exponents.
fn bucket_method<G: Curve, S: SourceBuilder<G>, D: QueryDensity>(
    bases: &S,
    density: &D,
    exponents: &Vec<Exponent>,
) -> (r: Result<G, SynthesisError>)
    ensures
        is_cpu_result::<G, S, D>(r, bases, density, exponents@),
{
    let c = window_width(exponents.len());
    multiexp_inner(bases, density, exponents, 0, c, true)
}

/// What the accelerator answered, as the result of the multiexponentiation:
/// the point, or the accelerator's failure.
pub fn kernel_outcome<G>(answer: Result<G, GPUError>) -> (r: Result<G, SynthesisError>)
    ensures
        r == match answer {
            Ok(p) => Ok::<G, SynthesisError>(p),
            Err(e) => Err::<G, SynthesisError>(SynthesisError::GPUError(e)),
        },
{
    match answer {
        Ok(p) => Ok(p),
        Err(e) => Err(SynthesisError::from(e)),
    }
}

/// The verdict of the self-check of the accelerator, once it is known. The
/// check compares the accelerator with the CPU on one input; it is run
/// once, and its verdict stands from then on.
#[derive(Debug)]
pub struct SupportCache {
    verdict: Option<bool>,
}

impl SupportCache {
    /// The verdict, if the check has been run.
    pub closed spec fn verdict(&self) -> Option<bool> {
        self.verdict
    }

    /// No verdict yet.
    pub fn new() -> (cache: SupportCache)
        ensures
            cache.verdict().is_none(),
    {
        SupportCache { verdict: None }
    }

    /// Whether the check has to be run now: it has if there is no verdict
    /// yet, unless the check is to be skipped altogether.
    pub fn must_check(&self, skip_check: bool) -> (run: bool)
        ensures
            run == (!skip_check && self.verdict().is_none()),
    {
        !skip_check && self.verdict.is_none()
    }

    /// Takes down the verdict of a check that was run. A verdict that is
    /// there already stays.
    pub fn record(&mut self, agrees: bool)
        ensures
            final(self).verdict() == Some(
                match old(self).verdict() {
                    Some(first) => first,
                    None => agrees,
                },
            ),
    {
        if self.verdict.is_none() {
            self.verdict = Some(agrees);
        }
    }
}

/// The number of bases and exponents on which the accelerator is checked.
pub const TEST_SIZE: usize = 1024;

/// Whether `r` is the verdict on the point `accelerated`, which the
/// accelerator gave for these bases and exponents with every position
/// active: whether it is the point that the bucket method gives, or how
/// the bucket method fails.
pub open spec fn is_agreement<G: Curve>(
    r: Result<bool, SynthesisError>,
    bases: Arc<Vec<G::Affine>>,
    exponents: Seq<Exponent>,
    accelerated: G,
) -> bool {
    let source = (bases, 0usize);
    let c = width_of(exponents.len());
    let failure = windows_failure::<G, (Arc<Vec<G::Affine>>, usize), FullDensity>(
        &source,
        &FullDensity,
        exponents,
        0,
        c,
        true,
    );
    let value = windows_value::<G, (Arc<Vec<G::Affine>>, usize), FullDensity>(
        &source,
        &FullDensity,
        exponents,
        0,
        c,
        true,
    );
    let naive = naive_value::<G, (Arc<Vec<G::Affine>>, usize), FullDensity>(
        &source,
        &FullDensity,
        exponents,
    );
    match r {
        Ok(same) => {
            &&& failure.is_none()
            &&& same == (accelerated.scalar() == value % G::order())
            &&& seen_whole::<G>(exponents, c) ==> same == (accelerated.scalar() == naive
                % G::order())
        },
        Err(e) => failure == Some(e),
    }
}

/// One half of the self-check: whether the point `accelerated`, which the
/// accelerator gave for these bases and exponents with every position
/// active, is the point that the CPU gives. A failure of the CPU path is
/// handed on.
pub fn agrees_with_cpu<G: Curve>(
    bases: &Arc<Vec<G::Affine>>,
    exponents: &Arc<Vec<Exponent>>,
    accelerated: &G,
) -> (r: Result<bool, SynthesisError>)
    ensures
        is_agreement::<G>(r, *bases, exponents@, *accelerated),
{
    let source = (arc_clone(bases), 0usize);
    match bucket_method::<G, _, _>(&source, &FullDensity, exponents) {
        Ok(cpu) => Ok(accelerated.same_point(&cpu)),
        Err(e) => Err(e),
    }
}

/// The kernel, if the accelerator may be trusted with multiexponentiations:
/// it may where the self-check is skipped, and where the verdict of the
/// self-check is that it agrees with the CPU. Otherwise the accelerator is
/// not supported, and the kernel is dropped.
pub fn gpu_multiexp_supported<K>(kern: K, skip_check: bool, cache: &SupportCache) -> (r: Result<
    K,
    SynthesisError,
>)
    ensures
        skip_check || cache.verdict() == Some(true) ==> r == Ok::<K, SynthesisError>(kern),
        !(skip_check || cache.verdict() == Some(true)) ==> match r {
            Err(SynthesisError::GPUError(e)) => e.msg@ == "GPU Multiexp not supported!"@,
            _ => false,
        },
{
    if skip_check || cache.verdict == Some(true) {
        Ok(kern)
    } else {
        Err(SynthesisError::from(GPUError { msg: "GPU Multiexp not supported!".to_owned() }))
    }
}

} // verus!
