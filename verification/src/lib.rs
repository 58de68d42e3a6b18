//! A passive monitor for a slot-based round-robin (Aura-style) consensus
//! protocol, seen from one validator identity: it resolves that identity
//! from a keystore listing, detects authority-set changes by fingerprint,
//! computes which slots of an epoch window belong to the identity, advances
//! each slot's record through its lifecycle (scheduled, minted, finalized)
//! as chain observations arrive, and keeps a durable, idempotent store of
//! the result.

pub mod colors;
pub mod digest;
pub mod identity;
pub mod reconcile;
pub mod schedule;
pub mod store;
pub mod timefmt;
