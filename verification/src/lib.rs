//! An in-process publish/subscribe broker for typed change events, together
//! with the small in-memory record store that feeds it.
//!
//! The broker fans every published event out to all live subscribers of the
//! event's kind, best-effort and without blocking the publisher. Subscribers
//! hold a cancellable stream of events; closing the stream unregisters the
//! subscriber at once. The record store keeps users and messages in dense
//! slot tables and publishes one change event per successful mutation.

pub mod broker;
pub mod event;
pub mod registry;
pub mod slots;
pub mod store;
pub mod subscriber_set;
pub mod subscription;
