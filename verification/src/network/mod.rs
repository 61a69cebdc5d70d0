//! The peer-to-peer network: persisted routing state, transport settings
//! and the node's decisions.

pub mod kademlia_persistence;
pub mod transport;
pub mod node;
