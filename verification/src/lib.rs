//! Procedural tiling of the four perimeter walls of a rectangular map with
//! variable-width prefabricated segments, driven by a seeded generator.

pub mod layout;
pub mod model;
pub mod perimeter;
pub mod render;
pub mod rng;
pub mod wall;
