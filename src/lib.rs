//! An off-screen pixel buffer: a row-major array of BGRX pixels sized to a
//! rectangle, with bounds-checked access and clipping draw operations.

pub mod geo;
pub mod pixel;
pub mod bitmap;
