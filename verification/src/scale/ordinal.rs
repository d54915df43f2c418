//! Ordinal scales map a discrete domain onto a discrete range.

use vstd::prelude::*;
use vstd::std_specs::cmp::PartialEqSpec;

verus! {

/// Unlike continuous scales, ordinal scales have a discrete domain and
/// range: a set of named categories mapped onto, say, a set of colors or
/// column positions.
#[derive(Clone, Copy, Debug)]
pub struct ScaleOrdinal<'a, DomainType, RangeType> {
    /// The input categories, in order.
    pub domain: &'a [DomainType],
    /// The output values, reused cyclically when shorter than the domain.
    pub range: &'a [RangeType],
}

/// The first index of `s` at or after `i` whose element equals `v` under
/// the element type's own equality; negative one when there is none.
pub open spec fn find_eq<D: PartialEq>(s: Seq<D>, v: D, i: int) -> int
    decreases s.len() - i,
{
    if i < 0 || i >= s.len() {
        -1
    } else if s[i].eq_spec(&v) {
        i
    } else {
        find_eq(s, v, i + 1)
    }
}

impl<'a, DomainType, RangeType> ScaleOrdinal<'a, DomainType, RangeType> where
    DomainType: PartialEq + Copy,
    RangeType: PartialEq + Copy,
 {
    /// A new ordinal scale with empty domain and range.
    pub fn new() -> (r: Self)
        ensures
            r.domain@.len() == 0,
            r.range@.len() == 0,
    {
        Self { domain: &[], range: &[] }
    }

    /// A copy of this scale with the given domain.
    pub fn domain(self, domain: &'a [DomainType]) -> (r: Self)
        ensures
            r.domain == domain,
            r.range == self.range,
    {
        Self { domain, ..self }
    }

    /// A copy of this scale with the given range.
    pub fn range(self, range: &'a [RangeType]) -> (r: Self)
        ensures
            r.range == range,
            r.domain == self.domain,
    {
        Self { range, ..self }
    }

    /// The range value of a domain value: the output at the position of
    /// the first matching category, wrapping around a shorter range.
    pub fn scale(&self, value: DomainType) -> (r: RangeType)
        requires
            DomainType::obeys_eq_spec(),
            find_eq(self.domain@, value, 0) >= 0,
            self.range@.len() > 0,
        ensures
            r == self.range@[find_eq(self.domain@, value, 0) % self.range@.len() as int],
    {
        let mut i: usize = 0;
        while i < self.domain.len()
            invariant
                0 <= i <= self.domain@.len(),
                DomainType::obeys_eq_spec(),
                find_eq(self.domain@, value, 0) >= 0,
                self.range@.len() > 0,
                find_eq(self.domain@, value, 0) == find_eq(self.domain@, value, i as int),
                forall|q: int| 0 <= q < i ==> !(#[trigger] self.domain@[q]).eq_spec(&value),
            decreases self.domain@.len() - i,
        {
            if self.domain[i] == value {
                return self.range[i % self.range.len()];
            }
            i = i + 1;
        }
        proof {
            assert(find_eq(self.domain@, value, self.domain@.len() as int) == -1);
        }
        self.range[0]
    }
}

} // verus!
