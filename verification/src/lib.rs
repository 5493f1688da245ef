//! In-process state store for a community chat-and-tipping service.
//!
//! Principals (opaque caller identities) post messages into rooms, tip each
//! other's messages, maintain profiles, and compete on a periodically
//! recomputed leaderboard. The store is single-threaded and run-to-completion:
//! every mutating operation either commits completely or leaves the store
//! unchanged. A snapshot of the whole store can be captured before a process
//! restart and restored afterwards.

pub mod types;
pub mod text;
pub mod store;
pub mod leaderboard;
pub mod listing;
pub mod lifecycle;
pub mod laws;
