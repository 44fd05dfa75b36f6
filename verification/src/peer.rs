//! Peers: the classification of other nodes in the network. The sockets and
//! handshake plumbing live outside the library.
use vstd::prelude::*;

verus! {

/// Whether a peer was added by us as a desired outbound connection or came
/// to us via an inbound connection.
#[derive(Debug, Clone, Copy, PartialEq, Eq, Structural)]
pub enum PeerType {
    Outbound,
    Inbound,
}

} // verus!
