//! Color values exchanged with rendering layers.

use vstd::prelude::*;

verus! {

/// A color as byte-scaled red, green and blue channels.
#[derive(Clone, Copy, Debug, PartialEq, Eq, Structural)]
pub struct Rgb {
    pub red: u16,
    pub green: u16,
    pub blue: u16,
}

} // verus!
