//! Flattening of parsed vector-graphics documents into polylines.
pub mod asset;
pub mod flatten;
pub mod geometry;
pub mod tree;
