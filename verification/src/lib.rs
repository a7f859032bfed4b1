//! Dead-man's-switch monitoring. Ships report heartbeats to a beacon; the
//! beacon keeps a registry of the ships it has heard of, evicts those whose
//! deadline has passed, and prepares the notices that report them.
//!
//! - [`model`]: the heartbeat and the record kept of a ship.
//! - [`registry`]: the registry and its operations.
//! - [`server`]: what the beacon does with each request and each sweep.
//! - [`pushover`]: the notices and how a provider's answer is read.
//! - [`ship`]: how a ship announces itself.
//! - [`text`] and [`json`]: the wording of messages and their form on the wire.
//! - [`laws`]: what holds of the registry over every course of events.

pub mod json;
pub mod laws;
pub mod model;
pub mod pushover;
pub mod registry;
pub mod server;
pub mod ship;
pub mod text;
