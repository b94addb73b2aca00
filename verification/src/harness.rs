use vstd::prelude::*;
use crate::ulp::ulp_dist;
use crate::ulp::ulp_distance;

verus! {

/// Bit pattern of the smallest positive normal value of the narrower
/// (single-precision) format: the lower bound of the measured domain.
pub const MIN_NORMAL_BITS: u32 = 0x0080_0000;

/// Bit pattern of one half in the narrower format: the upper bound of the
/// measured domain.
pub const HALF_BITS: u32 = 0x3F00_0000;

/// Largest element of a non-empty sequence of raw bit distances.
pub open spec fn seq_max(s: Seq<u64>) -> u64
    recommends
        s.len() > 0,
    decreases s.len(),
{
    if s.len() <= 1 {
        s[0]
    } else {
        let m = seq_max(s.drop_last());
        if s.last() > m {
            s.last()
        } else {
            m
        }
    }
}

/// Index of the first occurrence of the maximum in a non-empty sequence:
/// a later element replaces the running maximum only when it is strictly
/// larger, so ties keep the earliest index.
pub open spec fn first_max_index(s: Seq<u64>) -> int
    recommends
        s.len() > 0,
    decreases s.len(),
{
    if s.len() <= 1 {
        0
    } else {
        let i = first_max_index(s.drop_last());
        if s.last() > seq_max(s.drop_last()) {
            s.len() - 1
        } else {
            i
        }
    }
}

/// The first maximum index of a non-empty sequence is a valid index, holds
/// the maximum, every element is at most the maximum, and every earlier
/// element is strictly below it: the reduction picks the maximum and, on
/// ties, the first position at which it occurs.
pub proof fn lemma_first_max_is_max_and_first(s: Seq<u64>)
    requires
        s.len() > 0,
    ensures
        0 <= first_max_index(s) < s.len(),
        s[first_max_index(s)] == seq_max(s),
        forall|i: int| 0 <= i < s.len() ==> s[i] <= seq_max(s),
        forall|i: int| 0 <= i < first_max_index(s) ==> s[i] < seq_max(s),
    decreases s.len(),
{
    if s.len() > 1 {
        lemma_first_max_is_max_and_first(s.drop_last());
        assert(forall|i: int| 0 <= i < s.len() - 1 ==> s[i] == s.drop_last()[i]);
    }
}

/// One exhaustive worst-case scan over a closed range of bit patterns.
///
/// The scan walks every bit pattern from `lo` to `hi` inclusive, in
/// increasing order. For each pattern the caller evaluates a candidate
/// estimator and the reference oracle at the corresponding value, widens
/// both results, and hands their bit patterns to `step`. The scan records
/// the raw bit distance of each pair and keeps the position of the largest
/// distance seen so far, with ties resolved in favour of the earliest
/// position.
pub struct MaxErrorScan {
    /// First bit pattern of the range.
    pub lo: u32,
    /// Last bit pattern of the range.
    pub hi: u32,
    /// Next bit pattern to visit; `hi + 1` once the scan is complete.
    pub cursor: u32,
    /// Bit pattern at which the largest distance so far was observed.
    pub best_bits: u32,
    /// Largest raw bit distance observed so far.
    pub best_ulps: u64,
    /// All distances observed so far, in visiting order.
    pub observed: Ghost<Seq<u64>>,
}

impl MaxErrorScan {
    /// Invariant of a scan between steps.
    pub open spec fn wf(&self) -> bool {
        &&& self.lo <= self.hi
        &&& self.hi < u32::MAX
        &&& self.lo <= self.cursor <= self.hi + 1
        &&& self.observed@.len() == self.cursor - self.lo
        &&& self.observed@.len() > 0 ==> {
            &&& self.best_ulps == seq_max(self.observed@)
            &&& self.best_bits == self.lo + first_max_index(self.observed@)
        }
    }

    /// The bit patterns visited so far, in visiting order.
    pub open spec fn visited(&self) -> Seq<u32> {
        Seq::new((self.cursor - self.lo) as nat, |i: int| (self.lo + i) as u32)
    }

    /// Every pattern of the range has been visited.
    pub open spec fn complete(&self) -> bool {
        self.cursor == self.hi + 1
    }

    /// Start a scan of the closed, non-empty range `lo ..= hi`.
    pub fn new(lo: u32, hi: u32) -> (s: Self)
        requires
            lo <= hi,
            hi < u32::MAX,
        ensures
            s.wf(),
            s.lo == lo,
            s.hi == hi,
            s.cursor == lo,
            s.observed@ == Seq::<u64>::empty(),
    {
        MaxErrorScan {
            lo,
            hi,
            cursor: lo,
            best_bits: lo,
            best_ulps: 0,
            observed: Ghost(Seq::empty()),
        }
    }

    /// The bit pattern the caller must evaluate next.
    pub fn current_bits(&self) -> (r: u32)
        requires
            !self.complete(),
        ensures
            r == self.cursor,
    {
        self.cursor
    }

    /// Whether every pattern of the range has been visited.
    pub fn is_complete(&self) -> (r: bool)
        requires
            self.wf(),
        ensures
            r == self.complete(),
    {
        self.cursor > self.hi
    }

    /// Record the results for the current bit pattern and advance to the
    /// next one. `candidate_bits` and `oracle_bits` are the wider-format
    /// bit patterns of the candidate's widened result and of the reference
    /// result at the current pattern's value.
    pub fn step(&mut self, candidate_bits: u64, oracle_bits: u64)
        requires
            old(self).wf(),
            !old(self).complete(),
        ensures
            final(self).wf(),
            final(self).lo == old(self).lo,
            final(self).hi == old(self).hi,
            final(self).cursor == old(self).cursor + 1,
            final(self).observed@ == old(self).observed@.push(
                ulp_dist(candidate_bits, oracle_bits),
            ),
    {
        let u: u64 = ulp_distance(candidate_bits, oracle_bits);
        if self.cursor == self.lo || u > self.best_ulps {
            self.best_bits = self.cursor;
            self.best_ulps = u;
        }
        proof {
            let s = self.observed@.push(u);
            assert(s.drop_last() =~= self.observed@);
        }
        self.observed = Ghost(self.observed@.push(u));
        self.cursor = self.cursor + 1;
    }

    /// The worst-case pair of a completed scan: the bit pattern of the
    /// input realizing the largest observed distance (the earliest such
    /// pattern on ties), and that distance.
    pub fn best(&self) -> (r: (u32, u64))
        requires
            self.wf(),
            self.complete(),
        ensures
            r.0 == self.lo + first_max_index(self.observed@),
            r.1 == seq_max(self.observed@),
            self.observed@.len() > 0,
    {
        (self.best_bits, self.best_ulps)
    }
}

/// A completed scan has visited the first pattern of the range first and the
/// last pattern last, with every intermediate pattern visited exactly once,
/// in strictly increasing order.
pub proof fn lemma_enumeration_visits_range_in_order(s: MaxErrorScan)
    requires
        s.wf(),
        s.complete(),
    ensures
        s.visited().len() == s.hi - s.lo + 1,
        s.visited()[0] == s.lo,
        s.visited().last() == s.hi,
        forall|i: int, j: int|
            0 <= i < j < s.visited().len() ==> s.visited()[i] < s.visited()[j],
        forall|b: u32|
            s.lo <= b <= s.hi ==> #[trigger] s.visited()[b - s.lo] == b,
{
}

/// A completed scan of the measurement domain has visited the bit pattern
/// of the smallest positive normal value first and the bit pattern of one
/// half last, with every pattern in between visited exactly once in
/// strictly increasing order.
pub proof fn lemma_domain_enumeration(s: MaxErrorScan)
    requires
        s.wf(),
        s.complete(),
        s.lo == MIN_NORMAL_BITS,
        s.hi == HALF_BITS,
    ensures
        s.visited().len() == HALF_BITS - MIN_NORMAL_BITS + 1,
        s.visited()[0] == MIN_NORMAL_BITS,
        s.visited().last() == HALF_BITS,
        forall|i: int, j: int|
            0 <= i < j < s.visited().len() ==> s.visited()[i] < s.visited()[j],
        forall|b: u32|
            MIN_NORMAL_BITS <= b <= HALF_BITS ==> #[trigger] s.visited()[b - MIN_NORMAL_BITS]
                == b,
{
    lemma_enumeration_visits_range_in_order(s);
}

/// The worst-case pair of a completed scan is sound: the returned input is
/// one of the visited patterns, the returned distance is the one observed
/// there, no visited pattern observed a larger distance, and every pattern
/// visited before the returned one observed a strictly smaller distance.
pub proof fn lemma_best_is_worst_case(s: MaxErrorScan)
    requires
        s.wf(),
        s.complete(),
    ensures
        ({
            let k = first_max_index(s.observed@);
            &&& 0 <= k < s.visited().len()
            &&& s.visited()[k] == s.lo + k
            &&& s.observed@[k] == seq_max(s.observed@)
            &&& forall|i: int|
                0 <= i < s.observed@.len() ==> s.observed@[i] <= seq_max(s.observed@)
            &&& forall|i: int| 0 <= i < k ==> s.observed@[i] < seq_max(s.observed@)
        }),
{
    lemma_first_max_is_max_and_first(s.observed@);
}

} // verus!
