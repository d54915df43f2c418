//! The extent of a collection: its least and greatest values.

use core::ops::Range;
use vstd::prelude::*;

verus! {

/// Collections that can report the range their values span.
pub trait Extent<T> {
    /// When the extent exists.
    spec fn has_extent(&self) -> bool;

    /// What `extents` returns.
    spec fn extents_spec(&self) -> Range<T>;

    /// The range from the least value to the greatest.
    fn extents(&self) -> (r: Range<T>)
        requires
            self.has_extent(),
        ensures
            r == self.extents_spec(),
    ;
}

/// The least element of a non-empty sequence of integers.
pub open spec fn seq_min(s: Seq<i64>) -> int
    decreases s.len(),
{
    if s.len() <= 1 {
        s[0] as int
    } else if s[0] <= seq_min(s.drop_first()) {
        s[0] as int
    } else {
        seq_min(s.drop_first())
    }
}

/// The greatest element of a non-empty sequence of integers.
pub open spec fn seq_max(s: Seq<i64>) -> int
    decreases s.len(),
{
    if s.len() <= 1 {
        s[0] as int
    } else if s[0] >= seq_max(s.drop_first()) {
        s[0] as int
    } else {
        seq_max(s.drop_first())
    }
}

/// The least element is an element, and no element is below it.
pub proof fn lemma_seq_min(s: Seq<i64>)
    requires
        s.len() > 0,
    ensures
        s.contains(seq_min(s) as i64),
        forall|i: int| 0 <= i < s.len() ==> seq_min(s) <= s[i],
    decreases s.len(),
{
    if s.len() > 1 {
        lemma_seq_min(s.drop_first());
        assert forall|i: int| 0 <= i < s.len() implies seq_min(s) <= s[i] by {
            if i > 0 {
                assert(s.drop_first()[i - 1] == s[i]);
            }
        }
        if s[0] > seq_min(s.drop_first()) {
            let m = seq_min(s.drop_first()) as i64;
            let j = choose|j: int| 0 <= j < s.drop_first().len() && s.drop_first()[j] == m;
            assert(s[j + 1] == m);
        }
    }
}

/// The greatest element is an element, and no element is above it.
pub proof fn lemma_seq_max(s: Seq<i64>)
    requires
        s.len() > 0,
    ensures
        s.contains(seq_max(s) as i64),
        forall|i: int| 0 <= i < s.len() ==> s[i] <= seq_max(s),
    decreases s.len(),
{
    if s.len() > 1 {
        lemma_seq_max(s.drop_first());
        assert forall|i: int| 0 <= i < s.len() implies s[i] <= seq_max(s) by {
            if i > 0 {
                assert(s.drop_first()[i - 1] == s[i]);
            }
        }
        if s[0] < seq_max(s.drop_first()) {
            let m = seq_max(s.drop_first()) as i64;
            let j = choose|j: int| 0 <= j < s.drop_first().len() && s.drop_first()[j] == m;
            assert(s[j + 1] == m);
        }
    }
}

impl Extent<i64> for Vec<i64> {
    /// A non-empty vector has an extent.
    open spec fn has_extent(&self) -> bool {
        self.len() > 0
    }

    /// The range from the vector's minimum to its maximum.
    open spec fn extents_spec(&self) -> Range<i64> {
        Range { start: seq_min(self@) as i64, end: seq_max(self@) as i64 }
    }

    /// Scans for the least and greatest values.
    fn extents(&self) -> (r: Range<i64>)
        ensures
            r == self.extents_spec(),
            self@.contains(r.start) && self@.contains(r.end),
            forall|i: int| 0 <= i < self@.len() ==> r.start <= #[trigger] self@[i] <= r.end,
    {
        let mut lo: i64 = self[0];
        let mut hi: i64 = self[0];
        let mut i: usize = 1;
        while i < self.len()
            invariant
                1 <= i <= self@.len(),
                lo == seq_min(self@.take(i as int)),
                hi == seq_max(self@.take(i as int)),
            decreases self@.len() - i,
        {
            proof {
                lemma_minmax_push(self@.take(i as int), self@[i as int]);
                assert(self@.take(i as int).push(self@[i as int]) =~= self@.take(i + 1));
            }
            if self[i] < lo {
                lo = self[i];
            }
            if self[i] > hi {
                hi = self[i];
            }
            i = i + 1;
        }
        proof {
            assert(self@.take(self@.len() as int) =~= self@);
            lemma_seq_min(self@);
            lemma_seq_max(self@);
        }
        Range { start: lo, end: hi }
    }
}

/// Extending a sequence moves its minimum and maximum only toward the new
/// element.
proof fn lemma_minmax_push(s: Seq<i64>, v: i64)
    requires
        s.len() > 0,
    ensures
        seq_min(s.push(v)) == if v < seq_min(s) {
            v as int
        } else {
            seq_min(s)
        },
        seq_max(s.push(v)) == if v > seq_max(s) {
            v as int
        } else {
            seq_max(s)
        },
    decreases s.len(),
{
    if s.len() == 1 {
        assert(s.push(v).drop_first() =~= seq![v]);
        reveal_with_fuel(seq_min, 3);
        reveal_with_fuel(seq_max, 3);
    } else {
        lemma_minmax_push(s.drop_first(), v);
        assert(s.push(v).drop_first() =~= s.drop_first().push(v));
    }
}

} // verus!
