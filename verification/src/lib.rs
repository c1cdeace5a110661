//! Acquisition-and-dissemination core of a live network traffic visualizer.
//!
//! Raw link-layer frames are parsed into typed headers, classified into a
//! closed set of protocol labels, encoded as JSON flow events, and fanned
//! out through a lossy single-producer/multi-consumer broadcast ring to any
//! number of independently paced subscribers.

pub mod addr;
pub mod channel;
pub mod classify;
pub mod digits;
pub mod event;
pub mod label;
pub mod parse;
pub mod pipeline;
pub mod text;
pub mod wire;
