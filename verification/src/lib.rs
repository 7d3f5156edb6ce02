//! Session-credential refresh coordination.
//!
//! The library validates bearer credentials, decides when a stale
//! access/refresh pair must be rotated, and guarantees that concurrent
//! requests presenting the same stale credential agree on a single freshly
//! minted pair.  Signing and verification of credentials is delegated to an
//! external codec; persistence is modelled by an in-process session store.

pub mod accounts;
pub mod boundary;
pub mod claims;
pub mod config;
pub mod coordinator;
pub mod laws;
pub mod mailer;
pub mod registry;
pub mod schemas;
pub mod store;
pub mod tools;
