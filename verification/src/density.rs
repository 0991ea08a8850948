//! Which positions of a value sequence contribute to a sum.

use bit_vec::BitVec;
use vstd::prelude::*;

verus! {

/// `bit_vec::BitVec`: a growable vector of bits, packed into blocks.
#[verifier::external_type_specification]
#[verifier::external_body]
#[verifier::reject_recursive_types(B)]
pub struct ExBitVec<B>(BitVec<B>);

/// The bits that a bit vector holds, the first pushed first.
pub uninterp spec fn bits_of(bv: BitVec<u32>) -> Seq<bool>;

/// `BitVec::new`: a vector that holds no bit.
#[verifier::external_body]
fn bit_vec_new() -> (bv: BitVec<u32>)
    ensures
        bits_of(bv) == Seq::<bool>::empty(),
{
    BitVec::new()
}

/// `BitVec::len`: the number of bits held.
#[verifier::external_body]
fn bit_vec_len(bv: &BitVec<u32>) -> (n: usize)
    ensures
        n == bits_of(*bv).len(),
{
    bv.len()
}

/// `BitVec::push`: appends one bit. It panics when the length would pass
/// `usize::MAX`, which the precondition excludes.
#[verifier::external_body]
fn bit_vec_push(bv: &mut BitVec<u32>, bit: bool)
    requires
        bits_of(*old(bv)).len() < usize::MAX,
    ensures
        bits_of(*final(bv)) == bits_of(*old(bv)).push(bit),
{
    bv.push(bit)
}

/// `BitVec::get`: the bit at `i`, or `None` past the end.
#[verifier::external_body]
fn bit_vec_get(bv: &BitVec<u32>, i: usize) -> (bit: Option<bool>)
    ensures
        bit == (if i < bits_of(*bv).len() {
            Some(bits_of(*bv)[i as int])
        } else {
            None
        }),
{
    bv.get(i)
}

/// `BitVec::set`: overwrites the bit at `i`. It panics past the end, which the
/// precondition excludes.
#[verifier::external_body]
fn bit_vec_set(bv: &mut BitVec<u32>, i: usize, bit: bool)
    requires
        i < bits_of(*old(bv)).len(),
    ensures
        bits_of(*final(bv)) == bits_of(*old(bv)).update(i as int, bit),
{
    bv.set(i, bit)
}

/// How many of the first `n` bits are set.
pub open spec fn rank(bits: Seq<bool>, n: int) -> nat
    decreases n,
{
    if n <= 0 {
        0
    } else {
        rank(bits, n - 1) + if bits[n - 1] {
            1nat
        } else {
            0nat
        }
    }
}

/// How many bits are set.
pub open spec fn count_active(bits: Seq<bool>) -> nat {
    rank(bits, bits.len() as int)
}

/// No more than `n` of the first `n` bits are set.
pub proof fn lemma_rank_bound(bits: Seq<bool>, n: int)
    requires
        0 <= n,
    ensures
        rank(bits, n) <= n,
    decreases n,
{
    if n > 0 {
        lemma_rank_bound(bits, n - 1);
    }
}

/// The rank looks only at the bits before `n`.
pub proof fn lemma_rank_prefix(a: Seq<bool>, b: Seq<bool>, n: int)
    requires
        forall|i: int| 0 <= i < n ==> a[i] == b[i],
    ensures
        rank(a, n) == rank(b, n),
    decreases n,
{
    if n > 0 {
        lemma_rank_prefix(a, b, n - 1);
    }
}

/// Setting one bit raises the rank by one where the bit was clear and
/// counted, and leaves it elsewhere.
pub proof fn lemma_rank_set(bits: Seq<bool>, idx: int, n: int)
    requires
        0 <= idx < bits.len(),
        0 <= n <= bits.len(),
    ensures
        rank(bits.update(idx, true), n) == rank(bits, n) + if idx < n && !bits[idx] {
            1nat
        } else {
            0nat
        },
    decreases n,
{
    if n > 0 {
        lemma_rank_set(bits, idx, n - 1);
    }
}

/// Marking a position twice counts it once: after the first mark a second
/// one changes neither the bits nor their count, and the first raises the
/// count by one exactly where the position was unmarked.
pub proof fn marking_is_idempotent(bits: Seq<bool>, idx: int)
    requires
        0 <= idx < bits.len(),
    ensures
        bits.update(idx, true).update(idx, true) == bits.update(idx, true),
        count_active(bits.update(idx, true).update(idx, true)) == count_active(bits) + if bits[idx] {
            0nat
        } else {
            1nat
        },
{
    lemma_rank_set(bits, idx, bits.len() as int);
}

/// A density: for each position of a value sequence, whether a base
/// belongs to it.
pub trait QueryDensity {
    /// Whether position `i` is active.
    spec fn active(&self, i: int) -> bool;

    /// The number of positions the density knows of, where it is bounded.
    spec fn query_size(&self) -> Option<nat>;

    /// Whether position `i` is active.
    fn is_active(&self, i: usize) -> (b: bool)
        ensures
            b == self.active(i as int),
    ;

    /// The number of positions the density knows of, where it is bounded.
    fn get_query_size(&self) -> (size: Option<usize>)
        ensures
            match size {
                Some(n) => self.query_size() == Some(n as nat),
                None => self.query_size().is_none(),
            },
    ;
}

/// The first `n` positions of a density as a sequence of flags.
pub open spec fn mask_of<D: QueryDensity>(d: &D, n: nat) -> Seq<bool> {
    Seq::new(n, |i: int| d.active(i))
}

/// The density in which every position is active.
#[derive(Clone, Copy, Debug)]
pub struct FullDensity;

impl QueryDensity for FullDensity {
    open spec fn active(&self, i: int) -> bool {
        true
    }

    open spec fn query_size(&self) -> Option<nat> {
        None
    }

    fn is_active(&self, i: usize) -> (b: bool) {
        true
    }

    fn get_query_size(&self) -> (size: Option<usize>) {
        None
    }
}

/// A growable record of which positions are active, with a running count
/// of them. Positions are appended, never removed, and a position once
/// marked stays marked.
pub struct DensityTracker {
    bv: BitVec<u32>,
    total_density: usize,
}

impl View for DensityTracker {
    type V = Seq<bool>;

    /// The flags of the allocated positions, in order.
    closed spec fn view(&self) -> Seq<bool> {
        bits_of(self.bv)
    }
}

impl DensityTracker {
    /// The running count agrees with the flags, and the positions can be
    /// counted in a `usize`.
    pub closed spec fn wf(&self) -> bool {
        &&& self.total_density == count_active(bits_of(self.bv))
        &&& bits_of(self.bv).len() <= usize::MAX
    }

    /// A tracker with no position.
    pub fn new() -> (t: DensityTracker)
        ensures
            t.wf(),
            t@ == Seq::<bool>::empty(),
    {
        DensityTracker { bv: bit_vec_new(), total_density: 0 }
    }

    /// Appends one position, inactive.
    pub fn add_element(&mut self)
        requires
            old(self).wf(),
            old(self)@.len() < usize::MAX,
        ensures
            final(self).wf(),
            final(self)@ == old(self)@.push(false),
    {
        proof {
            lemma_rank_prefix(
                bits_of(self.bv),
                bits_of(self.bv).push(false),
                bits_of(self.bv).len() as int,
            );
        }
        bit_vec_push(&mut self.bv, false);
    }

    /// Marks position `idx` active. A position already marked stays as it
    /// is, and the count with it.
    pub fn inc(&mut self, idx: usize)
        requires
            old(self).wf(),
            idx < old(self)@.len(),
        ensures
            final(self).wf(),
            final(self)@ == old(self)@.update(idx as int, true),
            count_active(final(self)@) == count_active(old(self)@) + if old(self)@[idx as int] {
                0nat
            } else {
                1nat
            },
    {
        proof {
            lemma_rank_set(bits_of(self.bv), idx as int, bits_of(self.bv).len() as int);
            lemma_rank_bound(
                bits_of(self.bv).update(idx as int, true),
                bits_of(self.bv).len() as int,
            );
        }
        let marked = bit_vec_get(&self.bv, idx);
        if marked != Some(true) {
            bit_vec_set(&mut self.bv, idx, true);
            self.total_density += 1;
        } else {
            assert(bits_of(self.bv).update(idx as int, true) =~= bits_of(self.bv));
        }
    }

    /// The number of active positions.
    pub fn get_total_density(&self) -> (total: usize)
        requires
            self.wf(),
        ensures
            total == count_active(self@),
    {
        self.total_density
    }
}

impl QueryDensity for DensityTracker {
    open spec fn active(&self, i: int) -> bool {
        0 <= i < self@.len() && self@[i]
    }

    open spec fn query_size(&self) -> Option<nat> {
        Some(self@.len())
    }

    fn is_active(&self, i: usize) -> (b: bool) {
        bit_vec_get(&self.bv, i) == Some(true)
    }

    fn get_query_size(&self) -> (size: Option<usize>) {
        Some(bit_vec_len(&self.bv))
    }
}

} // verus!
