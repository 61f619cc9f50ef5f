//! An embedded persistence core for a single-store, multi-user desktop
//! application.
//!
//! The crate models the on-disk store as an explicitly owned [`store::Store`]
//! value: a schema tracked by a forward-only migration engine
//! ([`schema`]), raw rows mapped to typed entities by a schema-drift-tolerant
//! codec ([`codec`]), and an entity access layer with tenant isolation and
//! aggregate statistics ([`store`]). Durability (the actual database file) is
//! the caller's concern: rows cross the boundary as plain values.

pub mod clock;
pub mod codec;
pub mod crypto;
pub mod entities;
pub mod errors;
pub mod ident;
pub mod laws;
pub mod loader;
pub mod order;
pub mod patch;
pub mod remote;
pub mod schema;
pub mod search;
pub mod store;
pub mod values;
