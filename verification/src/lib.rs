//! Regex find-and-replace over text held as lines, with a bounded window of
//! lines as the unit of work and whole-text substitution as the ground truth.

pub mod engine;
pub mod escape;
pub mod laws;
pub mod plan;
pub mod reader;
pub mod replace;
pub mod sizer;
pub mod text;
pub mod window;
