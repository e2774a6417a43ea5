//! A process-local peer-to-peer host: it owns a 32-byte node identity,
//! discovers and tracks peers in a directory, decides unicast, broadcast and
//! fallback dispatch of opaque messages, computes content-addressed fragment
//! identifiers, and normalizes inbound transport callbacks into a single
//! event stream for one consumer.
//!
//! The transport collaborator — the component providing raw delivery and
//! discovery — stays outside: callers hand its callbacks' data to the
//! handlers here and perform the [`host::RouteDecision`] values handed back.

use vstd::prelude::*;

pub mod directory;
pub mod errors;
pub mod events;
pub mod fragment;
pub mod host;
pub mod identity;

pub use directory::{PeerDirectory, PeerStatus};
pub use errors::HostError;
pub use events::{Event, EventChannel, RawPacket};
pub use fragment::{id_for, Fragment, FragmentId};
pub use host::{CSHost, LifecycleState, RouteDecision};
pub use identity::{NodeId, NodeInfo};

verus! {

/// Size in bytes of a node identifier.
pub const NODE_ID_SIZE: usize = 32;

/// Size in bytes of a fragment identifier.
pub const FRAGMENT_ID_SIZE: usize = 32;

/// A byte sequence is a well-formed identifier when it is exactly 32 bytes
/// long.
pub open spec fn is_id_len(s: Seq<u8>) -> bool {
    s.len() == NODE_ID_SIZE
}

} // verus!
