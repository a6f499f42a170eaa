//! Signature adapters: the magic bytes that each format claims, and the
//! validation that grades a candidate match.
pub mod common;
pub mod otf;
pub mod ttf;
