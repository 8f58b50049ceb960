//! A scheduling registry: named, time-stamped work items grouped by
//! namespace, with the guarantee that at most one event per
//! `(namespace, key)` is in the `Scheduled` state at any instant.
//!
//! The registry stores events; it does not run them. Events are created
//! through [`store::EventStore::insert`], queried through
//! [`store::EventStore::get`] and [`store::EventStore::search`], and
//! settled through [`store::EventStore::change_state`] or atomically
//! replaced by a successor through [`store::EventStore::settle_and_next`].

pub mod clock;
pub mod config;
pub mod event;
pub mod ids;
pub mod search;
pub mod store;
pub mod text;
pub mod webhook;
