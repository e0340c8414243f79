//! A verified credential registry: a state machine that issues, revokes and
//! evaluates the validity of certificates bound to accounts, together with a
//! read-only query service over historical snapshots of the registry state.
//!
//! The registry enforces an authorization decision supplied by an external
//! policy, allocates strictly increasing certificate ids, keeps a bounded
//! per-account index of owned certificates, and never deletes a record:
//! the only mutation after issuance is the one-way revocation flip.

pub mod expiry;
pub mod index;
pub mod links;
pub mod query;
pub mod registry;
pub mod types;
