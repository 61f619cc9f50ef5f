//! The error taxonomy of the persistence core.

use vstd::prelude::*;

verus! {

/// Every failure a store operation can surface.
///
/// Migration failures are fatal to startup; the other variants are returned
/// to the caller as typed results. `NotFoundOrForbidden` deliberately merges
/// "no such row" with "row belongs to another tenant" so that existence never
/// leaks across tenants.
#[derive(Debug, Clone, Copy, PartialEq, Eq, Structural)]
pub enum StoreError {
    /// The store file could not be created or opened.
    StorageUnavailable,
    /// A migration body failed; startup must not proceed.
    MigrationFailed { version: i64 },
    /// A tenant-scoped operation was called without a tenant identifier.
    MissingTenant,
    /// An insert collided with an existing key (a row id, or a vehicle VIN).
    DuplicateKey,
    /// The row is absent, or belongs to a different tenant.
    NotFoundOrForbidden,
    /// A raw row could not be mapped to its entity shape.
    DecodeError,
    /// A list- or object-valued field could not be carried in its
    /// serialized transfer shape.
    SerializationError,
}

impl StoreError {
    /// A human-readable description, in place of `Display`.
    pub fn message(&self) -> String {
        match self {
            StoreError::StorageUnavailable => "storage is unavailable".to_owned(),
            StoreError::MigrationFailed { version: _ } => "a schema migration failed".to_owned(),
            StoreError::MissingTenant => "User ID is required".to_owned(),
            StoreError::DuplicateKey => "a row with this key already exists".to_owned(),
            StoreError::NotFoundOrForbidden => "not found or access denied".to_owned(),
            StoreError::DecodeError => "a stored row could not be decoded".to_owned(),
            StoreError::SerializationError => "a field could not be serialized".to_owned(),
        }
    }
}

} // verus!
