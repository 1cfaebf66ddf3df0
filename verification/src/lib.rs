//! Resource planning, command building and input parsing for an AV1 transcoding front end.

pub mod allocator;
pub mod cli;
pub mod probe;
pub mod ram;
pub mod telemetry;
pub mod text;
pub mod transcode;
