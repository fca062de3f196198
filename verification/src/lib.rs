//! Keeps a calendar of scheduled events in step with the upcoming events that a
//! community directory publishes for a group.
//!
//! The crate holds the decisions of that work: which fetched meetings are not
//! yet mirrored, what the mirrored event of a meeting looks like, and when and in
//! which order a registration's task asks for outside work. Network and storage
//! stay with the caller, which hands results in as plain values.

pub mod commands;
pub mod model;
pub mod reconcile;
pub mod schedule;
pub mod source;
pub mod text;
pub mod timestamp;
