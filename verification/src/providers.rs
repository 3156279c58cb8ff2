//! Providers beside the one for tests that the core holds.

pub mod llama;
pub mod toy;
