//! Threshold counts for histogram binning.

use vstd::prelude::*;

verus! {

/// Strategies that pick how many bin thresholds a data set should get.
pub trait Threshold<DomainType> {
    /// When the count can be computed for this data.
    spec fn can_threshold(&self, domain: &[DomainType]) -> bool;

    /// What `threshold` returns.
    spec fn threshold_spec(&self, domain: &[DomainType]) -> usize;

    /// The number of thresholds for `domain`, whose overall bounds are
    /// handed in by the caller.
    fn threshold(&self, domain: &[DomainType], min: DomainType, max: DomainType) -> (r: usize)
        requires
            self.can_threshold(domain),
        ensures
            r == self.threshold_spec(domain),
    ;
}

/// Sturges' rule: one more threshold than the base-two logarithm of the
/// number of distinct values, rounded up.
#[derive(Clone, Copy, Debug)]
pub struct SturgesThreshold {}

/// The number of doublings that take `p` to at least `n`.
pub open spec fn log2_ceil_from(p: int, n: int) -> int
    decreases (if p < n {
        n - p
    } else {
        0
    }) when p >= 1
{
    if p >= n {
        0
    } else {
        1 + log2_ceil_from(2 * p, n)
    }
}

/// The base-two logarithm of `n`, rounded up; zero for `n` at most one.
pub open spec fn log2_ceil(n: int) -> int {
    log2_ceil_from(1, n)
}

/// Computes the rounded-up base-two logarithm.
pub fn log2_ceil_x(n: u64) -> (r: u64)
    requires
        n <= 0x20_0000_0000_0000,
    ensures
        r == log2_ceil(n as int),
        r <= 54,
{
    proof {
        vstd::arithmetic::power2::lemma2_to64();
    }
    let mut p: u64 = 1;
    let mut k: u64 = 0;
    while p < n
        invariant
            1 <= p,
            p <= 0x40_0000_0000_0000,
            n <= 0x20_0000_0000_0000,
            k + log2_ceil_from(p as int, n as int) == log2_ceil(n as int),
            k <= 54,
            p == vstd::arithmetic::power2::pow2(k as nat),
        decreases (if p < n {
            n - p
        } else {
            0
        }),
    {
        proof {
            vstd::arithmetic::power2::lemma_pow2_unfold(k as nat + 1);
            if k == 54 {
                assert(vstd::arithmetic::power2::pow2(54) == 0x40_0000_0000_0000) by {
                    vstd::arithmetic::power2::lemma_pow2_adds(32, 22);
                    vstd::arithmetic::power2::lemma2_to64();
                }
            }
        }
        p = p * 2;
        k = k + 1;
    }
    k
}

/// Appending one element to a sequence inserts it into the element set.
proof fn lemma_to_set_push(s: Seq<i64>, x: i64)
    ensures
        s.push(x).to_set() =~= s.to_set().insert(x),
{
    assert forall|y: i64| s.push(x).to_set().contains(y) implies s.to_set().insert(x).contains(
        y,
    ) by {
        let j = choose|j: int| 0 <= j < s.push(x).len() && s.push(x)[j] == y;
        if j < s.len() {
            assert(s[j] == y);
        }
    }
    assert forall|y: i64| s.to_set().insert(x).contains(y) implies s.push(x).to_set().contains(
        y,
    ) by {
        if y == x {
            assert(s.push(x)[s.len() as int] == x);
        } else {
            let j = choose|j: int| 0 <= j < s.len() && s[j] == y;
            assert(s.push(x)[j] == y);
        }
    }
}

impl Threshold<i64> for SturgesThreshold {
    /// The data must be small enough for the logarithm to stay exact — the
    /// same two-to-the-fifty-third ceiling the rule has always had.
    open spec fn can_threshold(&self, domain: &[i64]) -> bool {
        domain.len() <= 0x20_0000_0000_0000
    }

    /// One more than the rounded-up base-two logarithm of the number of
    /// distinct values.
    open spec fn threshold_spec(&self, domain: &[i64]) -> usize {
        (log2_ceil(domain@.to_set().len() as int) + 1) as usize
    }

    /// Counts the distinct values and applies Sturges' rule to the count.
    fn threshold(&self, domain: &[i64], _min: i64, _max: i64) -> (r: usize)
        ensures
            r == log2_ceil(domain@.to_set().len() as int) + 1,
    {
        proof {
            broadcast use vstd::set::group_set_axioms;
            broadcast use vstd::seq_lib::seq_to_set_is_finite;

            assert(domain@.take(0).to_set() =~= Set::<i64>::empty());
        }
        let mut count: u64 = 0;
        let mut i: usize = 0;
        while i < domain.len()
            invariant
                0 <= i <= domain.len(),
                domain.len() <= 0x20_0000_0000_0000,
                count == domain@.take(i as int).to_set().len(),
                count <= i,
            decreases domain.len() - i,
        {
            proof {
                broadcast use vstd::set::group_set_axioms;
                broadcast use vstd::seq_lib::seq_to_set_is_finite;

            }
            let mut seen = false;
            let mut j: usize = 0;
            while j < i
                invariant
                    0 <= j <= i < domain.len(),
                    seen == exists|q: int| 0 <= q < j && domain@[q] == domain@[i as int],
                decreases i - j,
            {
                if domain[j] == domain[i] {
                    seen = true;
                }
                j = j + 1;
            }
            proof {
                broadcast use vstd::set::group_set_axioms;
                broadcast use vstd::seq_lib::seq_to_set_is_finite;

                assert(domain@.take(i + 1) =~= domain@.take(i as int).push(domain@[i as int]));
                lemma_to_set_push(domain@.take(i as int), domain[i as int]);
                if seen {
                    let q = choose|q: int| 0 <= q < i && domain@[q] == domain@[i as int];
                    assert(domain@.take(i as int)[q] == domain@[i as int]);
                    assert(domain@.take(i as int).to_set().contains(domain@[i as int]));
                } else {
                    if domain@.take(i as int).to_set().contains(domain@[i as int]) {
                        let q = choose|q: int|
                            0 <= q < i && domain@.take(i as int)[q] == domain@[i as int];
                        assert(domain@[q] == domain@[i as int]);
                    }
                    assert(domain@.take(i as int).to_set().len() <= domain@.take(
                        i as int,
                    ).len()) by {
                        domain@.take(i as int).lemma_cardinality_of_set();
                    }
                }
            }
            if !seen {
                count = count + 1;
            }
            i = i + 1;
        }
        proof {
            assert(domain@.take(domain@.len() as int) =~= domain@);
        }
        let lg = log2_ceil_x(count);
        (lg + 1) as usize
    }
}

} // verus!
