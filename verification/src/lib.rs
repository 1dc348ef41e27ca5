//! Hook tables, dispatch planning and start-up planning for a scripted
//! TriCore emulation harness.
//!
//! The crate holds the decisions of the harness: which hooks fire for an
//! executed instruction and in which order, which callbacks an emitted event
//! reaches, how a workflow description becomes a sequence of backend set-up
//! steps, and which parts of a binary image are loaded. Performing those
//! decisions against a CPU emulation backend and a script engine is left to
//! the program built around the crate.

pub mod qecu;
pub mod utils;
