//! Failure kinds shared by the scale constructors.

use vstd::prelude::*;

verus! {

/// Why a scale refused a configuration.
#[derive(Clone, Copy, Debug, PartialEq, Eq, Structural)]
pub enum BuckyError {
    /// A log-scale domain included zero or straddled it.
    DegenerateDomain,
    /// A domain violated an ordering precondition (start above end).
    DescendingScale,
    /// A deliberate gap in the library that must fail loudly rather than
    /// silently produce wrong numbers.
    Unimplemented,
}

impl BuckyError {
    /// A short human-readable description, mirroring the error kind.
    pub fn describe(&self) -> (r: &'static str)
        ensures
            r@ == self.describe_spec(),
    {
        match self {
            BuckyError::DegenerateDomain => "domain must not include 0",
            BuckyError::DescendingScale => "descending scale not allowed",
            BuckyError::Unimplemented => "not implemented",
        }
    }

    /// What `describe` returns for each kind.
    pub open spec fn describe_spec(&self) -> Seq<char> {
        match self {
            BuckyError::DegenerateDomain => "domain must not include 0"@,
            BuckyError::DescendingScale => "descending scale not allowed"@,
            BuckyError::Unimplemented => "not implemented"@,
        }
    }
}

} // verus!
