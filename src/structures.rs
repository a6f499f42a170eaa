//! Binary structures and the decoders that read them.
pub mod common;
pub mod ttf;
