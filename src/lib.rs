//! Streaming orchestration for a text-to-speech engine: text segmentation,
//! ordered aggregation of out-of-order results and the scheduling policies
//! that dispatch text units to a shared speech model.

pub mod segment;
pub mod audio;
pub mod aggregator;
pub mod stream;
pub mod scheduler;
pub mod synth;
