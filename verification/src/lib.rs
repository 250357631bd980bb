//! Membership and ingestion core of a decentralized mining-pool node.
//!
//! The crate keeps the overlay membership state machine — which peers are
//! live, what to dial when discovery reports a peer, what to prune when a
//! connection closes — and the share ingestion pipeline that turns feed
//! frames into decoded share values for an internal queue, together with the
//! record type that a future share chain will link.

pub mod node;
pub mod peers;
pub mod receiver;
pub mod shares;
