//! Build-job orchestration for a custom disk-image service.
//!
//! The crate covers the four parts of the service that carry real state and
//! ordering logic: the device classifier that maps hardware-enumeration text
//! to kernel-module recommendations, the job registry that owns every build
//! job record, the build pipeline state machine that drives the external
//! tools, and the status broadcaster that diffs job snapshots into stream
//! messages. Everything here is verified; process management, sockets and
//! the HTTP surface live outside the crate and only feed plain values in.

pub mod model;
pub mod text;
pub mod classifier;
pub mod registry;
pub mod pipeline;
pub mod broadcaster;
pub mod catalog;
pub mod selftest;
