//! Core of a ledger-bound software licensing scheme.
//!
//! A license record binds one application id and one machine-fingerprint
//! hash to one owner account. The record lives on an append-only ledger at
//! a storage address derived deterministically from the owning program's
//! namespace, the user's account identity, and the application id, so that
//! at most one record can ever exist per `(owner, app_id)` pair.
//!
//! - [`record`] holds the record type and its fixed 53-byte layout.
//! - [`derivation`] derives and re-checks record addresses.
//! - [`issue`] models the ledger and performs the one-time creation step.

pub mod derivation;
pub mod issue;
pub mod record;
