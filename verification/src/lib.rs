//! A block-exchange engine for a content-addressed peer-to-peer network.
//!
//! The engine keeps one ledger per peer, coalesces outbound wantlist deltas,
//! block payloads and presences into one pending message per peer, and turns
//! inbound messages into events for the embedder. The functions of the
//! library carry contracts that Verus checks; what is taken on trust of the
//! cache crate stands in `cache`.

pub mod assoc;
pub mod behaviour;
pub mod cache;
pub mod event;
pub mod ids;
pub mod laws;
pub mod ledger;
pub mod message;
pub mod model;
pub mod protocol;
pub mod share;
pub mod wantlist;
