//! Target architectures.

pub mod tricore;
