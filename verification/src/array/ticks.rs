//! Tick generation: choosing step sizes and tick positions for axes.

use vstd::prelude::*;

pub mod time;
pub mod time_duration;

verus! {

/// Like a tick step, except that the returned increment is quantized so that
/// tick values can be represented exactly; the caller decides how to apply
/// it. Implemented here for calendar time domains, which pick their
/// increment from a ladder of round calendar intervals.
pub trait TickIncrement<DomainType, ReturnType> {
    /// When the increment for `count` is meaningful on this domain.
    spec fn can_increment(&self, count: i32) -> bool;

    /// The quantized increment that would place about `count` ticks.
    fn tick_increment(&self, count: i32) -> ReturnType
        requires
            self.can_increment(count),
    ;
}

} // verus!
