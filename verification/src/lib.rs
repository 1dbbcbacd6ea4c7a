//! Event-sourcing and fan-out engine of a live viewer for pipeline graph files.
//!
//! A directory of `.dot` files is watched; every create, rename and delete of such a
//! file becomes one logical graph event, and every graph event becomes one JSON frame
//! that is fanned out to the connected viewer sessions. Sessions of a second role,
//! the snapshot triggers, are asked for fresh graph dumps on request.
//!
//! Nothing in this crate touches the file system, the network or the clock: callers
//! observe the outside world and hand plain values in, and they carry out the
//! deliveries that the functions here hand back.

pub mod catalog;
pub mod coordinator;
pub mod hub;
pub mod names;
pub mod registry;
pub mod text;
pub mod watcher;
pub mod wire;
