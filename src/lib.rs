//! Custody and exchange of uniquely identified cultural assets.
//!
//! `registry` keeps the ownership ledger: who holds each token, its
//! descriptive record and its append-only provenance chain. `market` sells
//! those tokens at a fixed price or through a time-boxed ascending auction,
//! moving ownership through the registry. Every operation either commits all
//! of its writes or fails with an `Error` and leaves the state untouched.
//!
//! Principals are plain identifiers; proving that a caller *is* a principal,
//! reading the clock and moving funds happen outside this crate, which takes
//! the authenticated principal and the current time as arguments and hands
//! back the payments that are due.

pub mod error;
pub mod registry;
pub mod market;
pub mod laws;
