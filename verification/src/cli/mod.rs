//! The decisions of the publish workflow.

pub mod orchestration;
