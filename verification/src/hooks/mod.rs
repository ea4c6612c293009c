//! What is handed to the scripts that run around the creation of a tag.

pub mod lifecycle;

pub use lifecycle::{HookContext, HookType};
