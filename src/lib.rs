//! Conversion of sector-file and VATglasses coverage data into sorted,
//! mergeable position and station configurations.

pub mod facility;
pub mod text;
pub mod order;
pub mod model;
pub mod merge;
pub mod euroscope;
pub mod vatglasses;
