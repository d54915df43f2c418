//! Shape generators: curves and lines that turn point sequences into path
//! geometry.

pub mod curve;
pub mod line;
