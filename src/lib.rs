//! Replication of edits to a shared whiteboard document between processes
//! that reach one another only through a best-effort publish/subscribe
//! transport.
//!
//! - [`model`]: the elements of the document, the operations that edit it,
//!   and the batch in which a process hands its operations to the others.
//! - [`json`], [`codec`]: the structured wire form of a batch, and the check
//!   of a payload's bytes.
//! - [`engine`]: the loop guard, conflict detection and resolution, and the
//!   store of pending batches with its sweep.
//! - [`clock`]: instants, read from a batch's stamp or taken from the clock.
//! - [`schedule`]: the cadence of the receive loop and of its sweeps.
//! - [`laws`]: what holds of the engine across calls.

pub mod json;
pub mod model;
pub mod clock;
pub mod codec;
pub mod engine;
pub mod laws;
pub mod schedule;
