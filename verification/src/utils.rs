//! Workflow description, image loading and text helpers.

pub mod loader;
pub mod text;
pub mod workflow;
