//! Persisting the DHT routing table between runs.

use vstd::prelude::*;
use crate::paths::{path_join, join_path};
use crate::text::{copy_string, str_eq, texts_of, copy_strings};

verus! {

/// A peer of the routing table as stored.
#[derive(Debug, Clone)]
pub struct PersistedPeer {
    /// The peer's ID
    pub peer_id: String,
    /// The peer's addresses
    pub addresses: Vec<String>,
    /// When the peer was last seen (Unix seconds)
    pub last_seen: u64,
}

/// The stored routing table.
#[derive(Debug, Clone)]
pub struct PersistedDhtState {
    /// Format version
    pub version: u32,
    /// The node the table belongs to
    pub local_peer_id: String,
    /// Peers of the table
    pub peers: Vec<PersistedPeer>,
    /// When the table was saved (Unix seconds)
    pub saved_at: u64,
}

/// Where the routing table is kept.
pub struct KademliaPersistence {
    db_path: String,
}

impl KademliaPersistence {
    /// The file the table is kept in.
    pub closed spec fn spec_db_path(&self) -> Seq<char> {
        self.db_path@
    }

    /// Keeps the table in `kademlia.json` below `base_dir`.
    pub fn new(base_dir: &str) -> (r: Self)
        ensures
            r.spec_db_path() == path_join(base_dir@, "kademlia.json"@),
    {
        KademliaPersistence { db_path: join_path(base_dir, "kademlia.json") }
    }

    /// The file the table is kept in.
    pub fn db_path(&self) -> (r: &str)
        ensures
            r@ == self.spec_db_path(),
    {
        self.db_path.as_str()
    }

    /// The table to store for `local_peer_id` at time `now`: format 1, every
    /// peer in order, each seen at `now`.
    pub fn state_for(local_peer_id: &str, peers: &Vec<(String, Vec<String>)>, now: u64) -> (r: PersistedDhtState)
        ensures
            r.version == 1,
            r.local_peer_id@ == local_peer_id@,
            r.saved_at == now,
            r.peers@.len() == peers@.len(),
            forall|i: int| 0 <= i < peers@.len() ==> {
                &&& (#[trigger] r.peers@[i]).peer_id@ == peers@[i].0@
                &&& texts_of(r.peers@[i].addresses@) == texts_of(peers@[i].1@)
                &&& r.peers@[i].last_seen == now
            },
    {
        let mut out: Vec<PersistedPeer> = Vec::new();
        let mut i: usize = 0;
        while i < peers.len()
            invariant
                0 <= i <= peers@.len(),
                out@.len() == i,
                forall|j: int| 0 <= j < i ==> {
                    &&& (#[trigger] out@[j]).peer_id@ == peers@[j].0@
                    &&& texts_of(out@[j].addresses@) == texts_of(peers@[j].1@)
                    &&& out@[j].last_seen == now
                },
            decreases peers@.len() - i,
        {
            let p = PersistedPeer {
                peer_id: copy_string(peers[i].0.as_str()),
                addresses: copy_strings(&peers[i].1),
                last_seen: now,
            };
            out.push(p);
            i = i + 1;
        }
        PersistedDhtState { version: 1, local_peer_id: copy_string(local_peer_id), peers: out, saved_at: now }
    }

    /// The peers to restore from a stored table: all of them if it belongs
    /// to `local_peer_id`, none otherwise.
    pub fn restorable_peers(state: PersistedDhtState, local_peer_id: &str) -> (r: Vec<PersistedPeer>)
        ensures
            state.local_peer_id@ == local_peer_id@ ==> r == state.peers,
            state.local_peer_id@ != local_peer_id@ ==> r@.len() == 0,
    {
        if str_eq(state.local_peer_id.as_str(), local_peer_id) {
            state.peers
        } else {
            Vec::new()
        }
    }
}

} // verus!
