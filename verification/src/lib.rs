//! Reconstruction ("unfiltering") of PNG scanlines.

pub mod model;
pub mod fast;
pub mod de_filter;
pub mod laws;
