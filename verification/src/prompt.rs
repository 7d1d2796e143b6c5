//! The prompts that documents are rendered with.

pub mod context;
