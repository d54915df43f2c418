//! Charting primitives: scales, tick generation and curve path geometry.
//!
//! The numeric heart of a chart: continuous and discrete scales that map a
//! data domain onto a visual range, "nice" tick placement for axes (both
//! numeric and calendar-aware), and curve generators that turn ordered point
//! sequences into path drawing commands.
//!
//! Chart assembly around this core — data loading, SVG or XML element
//! construction and annotation, and rendering — is the business of outside
//! collaborators that feed values in and consume the scaled coordinates,
//! tick positions and path commands this library computes.

use vstd::prelude::*;

pub mod array;
pub mod color;
pub mod datetime;
pub mod error;
pub mod interpolate;
pub mod numeric;
pub mod scale;
pub mod shape;

verus! {

/// Relies on the standard library's derived clone for `Range`: cloning an
/// endpoint pair; nothing further is assumed of it.
pub assume_specification<Idx: Clone>[ <core::ops::Range<Idx> as Clone>::clone ](
    r: &core::ops::Range<Idx>,
) -> core::ops::Range<Idx>
;

/// Convenience structure to store a chart's margins.
#[derive(Clone, Copy, Debug, PartialEq, Eq, Structural)]
pub struct Margins {
    pub top: i32,
    pub bottom: i32,
    pub left: i32,
    pub right: i32,
}

/// Convenience structure to store a chart's metadata.
#[derive(Clone, Copy, Debug, PartialEq, Eq, Structural)]
pub struct Chart {
    pub margins: Margins,
    pub width: i32,
    pub height: i32,
}

} // verus!
