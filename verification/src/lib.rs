//! A topic-based publish/subscribe hub.
//!
//! Clients register under an identifier with a set of topics, open a
//! connection, and from then on receive every payload that is published to
//! one of their topics. This crate is the core of such a hub: the registry
//! of clients, the fan-out of a payload to the subscribers of its topic,
//! and the lifecycle of a connection. The network around it (request
//! decoding, the websocket transport, the lock that shares the registry
//! between tasks) is the caller's.
//!
//! - [`registry`] holds the client records and the operations on them.
//!   Operations that only read take `&self` and operations that change
//!   something take `&mut self`, so a reader/writer lock around a registry
//!   admits exactly the sharing that is safe.
//! - [`fanout`] publishes: it takes a snapshot of the subscribers and
//!   offers the payload to the channel of each.
//! - [`lifecycle`] is the state machine of one connection, from the
//!   request to open it to the cleanup after its end.
//! - [`client`] is the record of one client, [`channel`] the handle to its
//!   outbound channel, and [`error`] what the operations report.
//! - [`model`] says in terms of maps and sets what the operations do, and
//!   [`laws`] proves what follows for every sequence of them.
//!
//! Nothing here waits or blocks, and no operation panics: what cannot be
//! done is reported as a value.

pub mod channel;
pub mod client;
pub mod error;
pub mod fanout;
pub mod laws;
pub mod lifecycle;
pub mod model;
pub mod registry;
pub mod text;
