//! A multi-producer telemetry fan-out pipeline: per-source frame sequencing,
//! non-blocking publication with an explicit drop policy, the naming and
//! header of the per-frame point-cloud files, and the last-write-wins
//! live-view cache with its cooperative step.
pub mod frame;
pub mod channel;
pub mod message;
pub mod producer;
pub mod output;
pub mod color;
pub mod live_view;
