//! Reacts to discrete domain events read from an external line-oriented
//! decoder: decodes each line into an [`event::Event`], filters it against
//! optional equality constraints, and supervises the lifecycle of child
//! "action" processes under a configurable busy policy. A small notification
//! subsystem fans a single trigger signal out to connected peers.
//!
//! This crate holds the verified core: the event decoder and filter, the
//! action supervisor's bookkeeping and decisions, the cooperative-cancellation
//! state machine, and the bounded fan-out channel discipline. The surrounding
//! process plumbing (subprocesses, sockets, the async runtime) lives outside
//! the library and drives these components.

pub mod action;
pub mod cancel;
pub mod event;
pub mod fault;
pub mod filter;
pub mod notify;
pub mod supervisor;
mod text;
