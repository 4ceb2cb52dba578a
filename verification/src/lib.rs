//! Subscription resolution and relay reconciliation engine for a Nostr client
//! backend.
//!
//! The engine decides, per request, what can be answered from the local event
//! cache, what must be fetched from remote relays, how inbound relay protocol
//! frames are routed back to subscribers and to storage, and how a
//! set-reconciliation side channel narrows sync gaps.  All decision logic is
//! verified; the event store, the relay transport and the UI shell are
//! external collaborators that a thin unverified driver wires to this crate.

use vstd::prelude::*;

pub mod engine;
pub mod filter;
pub mod hexcode;
pub mod negentropy;
pub mod publish;
pub mod relays;
pub mod router;
pub mod subs;
pub mod subscribe;
pub mod strutil;
pub mod types;
pub mod wire;

verus! {

/// A 32-byte identifier (event id or public key) decoded from 64 hex digits.
pub type Key = Vec<u8>;

} // verus!
