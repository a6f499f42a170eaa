//! Recognition of TrueType and OpenType font containers inside arbitrary
//! byte buffers: a generic fixed-width field decoder, a table directory
//! parser built on it, a size estimator and two signature adapters.
pub mod signatures;
pub mod structures;
