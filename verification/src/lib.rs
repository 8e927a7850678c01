//! Cursor-based pagination for ordered data stores.
//!
//! The heart of the crate is the connection engine in [`connection`]: it
//! validates a client's relative pagination request (`first`/`last` plus an
//! optional cursor), turns it into a bounded window against an ordered store,
//! and assembles the fetched rows into a cursor-tagged [`connection::Connection`].
//! The [`store`] module abstracts the store capability the engine consumes.
//! The remaining modules hold small request-level data types shared with the
//! surrounding web layer.

pub mod access_token;
pub mod connection;
pub mod month;
pub mod request_id;
pub mod store;
