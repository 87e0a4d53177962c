//! Verified core of two line-oriented text utilities: one numbers the lines
//! of its sources, the other keeps only the head of each source.

pub mod catr;
pub mod headr;
pub mod report;
pub mod source;
pub mod text;
