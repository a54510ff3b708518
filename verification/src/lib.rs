//! Bulk URL probing: the verified core of a producer / worker-pool pipeline.

pub mod config;
pub mod orchestrator;
pub mod pipeline;
pub mod report;
pub mod source;
pub mod text;
pub mod worker;
