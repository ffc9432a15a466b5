//! Project context for a directory tree: which files are shown, how each is
//! rendered, and which dependency sources relate to captured compiler output.

pub mod deps;
pub mod engine;
pub mod error;
pub mod grep;
pub mod paths;
pub mod relevant;
pub mod render;
pub mod text;
