//! Discovery of modules: DHT keys, and the queries under way.

use vstd::prelude::*;
use vstd::string::StringExecFns;
use std::collections::HashMap;
use crate::text::{lit, copy_bytes, utf8_string, utf8};
use crate::time::{Duration, elapsed_since, instant_now};
use crate::wasm::loader::ModuleCid;

verus! {

broadcast use vstd::std_specs::hash::group_hash_axioms;

/// A query under way.
#[derive(Debug)]
pub struct DiscoveryQuery {
    pub query_type: QueryType,
    pub initiated_at: std::time::Instant,
}

/// What a query looks for.
#[derive(Debug, Clone)]
pub enum QueryType {
    /// Module metadata by CID
    ModuleMetadata { cid: String },
    /// The CID of name:version
    ModuleName { name: String, version: String },
    /// Providers of a module
    Providers { cid: String },
}

/// Counts of the queries under way.
#[derive(Debug, Clone)]
pub struct DiscoveryStats {
    pub pending_dht_queries: usize,
    pub pending_requests: usize,
}

/// Why a record could not be read.
#[derive(Debug, Clone, Copy, PartialEq, Eq, Structural)]
pub enum DiscoveryError {
    /// A name record that is not UTF-8 text.
    InvalidCidRecord,
}

/// Tracks the DHT queries and requests under way, by their ids.
pub struct ModuleDiscovery {
    pending_queries: HashMap<u64, DiscoveryQuery>,
    pending_requests: HashMap<u64, DiscoveryQuery>,
}

fn drop_ids(m: &mut HashMap<u64, DiscoveryQuery>, ids: &Vec<u64>)
    ensures
        final(m)@ == old(m)@.remove_keys(ids@.to_set()),
{
    let ghost m0 = m@;
    let mut i: usize = 0;
    while i < ids.len()
        invariant
            0 <= i <= ids@.len(),
            m@ == m0.remove_keys(ids@.take(i as int).to_set()),
        decreases ids@.len() - i,
    {
        m.remove(&ids[i]);
        proof {
            assert(ids@.take(i + 1) =~= ids@.take(i as int).push(ids@[i as int]));
            ids@.take(i as int).lemma_push_to_set_commute(ids@[i as int]);
            assert(m@ =~= m0.remove_keys(ids@.take(i + 1).to_set()));
        }
        i = i + 1;
    }
    proof {
        assert(ids@.take(ids@.len() as int) =~= ids@);
    }
}

/// The ids in `m` of the queries that, by the clock, were started longer
/// than `timeout` ago, each once. Which ones those are depends on the time.
fn stale_ids(m: &HashMap<u64, DiscoveryQuery>, timeout: &Duration) -> (r: Vec<u64>)
    ensures
        r@.no_duplicates(),
        forall|i: int| 0 <= i < r@.len() ==> m@.contains_key(#[trigger] r@[i]),
{
    let mut out: Vec<u64> = Vec::new();
    for k in it: m.keys()
        invariant
            forall|i: int| 0 <= i < out@.len() ==> m@.contains_key(#[trigger] out@[i]),
            it.seq().no_duplicates(),
            forall|i: int| 0 <= i < out@.len() ==> #[trigger] it.seq().take(it.index() as int).contains(&out@[i]),
            out@.no_duplicates(),
    {
        let ghost idx = it.index() as int;
        let ghost seen = it.seq().take(idx);
        proof {
            assert(it.seq().take(idx + 1) =~= seen.push(it.seq()[idx]));
            assert forall|i: int| 0 <= i < out@.len() implies #[trigger] it.seq().take(idx + 1).contains(&out@[i]) by {
                assert(it.seq().take(it.index() as int).contains(&out@[i]));
                assert(seen.contains(&out@[i]));
                let j = choose|j: int| 0 <= j < seen.len() && seen[j] == &out@[i];
                assert(it.seq().take(idx + 1)[j] == &out@[i]);
            }
        }
        match m.get(k) {
            Some(q) => {
                let (secs, nanos) = elapsed_since(&q.initiated_at);
                if Duration::new(secs, nanos).longer_than(timeout) {
                    let ghost before = out@;
                    proof {
                        assert(it.seq()[idx] == k);
                        assert(!before.contains(*k)) by {
                            if before.contains(*k) {
                                let i = choose|i: int| 0 <= i < before.len() && before[i] == *k;
                                assert(it.seq().take(it.index() as int).contains(&before[i]));
                                assert(seen.contains(&before[i]));
                                let j = choose|j: int| 0 <= j < seen.len() && seen[j] == &before[i];
                                assert(it.seq()[j] == it.seq()[idx]);
                            }
                        }
                    }
                    out.push(*k);
                    proof {
                        assert(out@ == before.push(*k));
                        assert(it.seq().take(idx + 1)[idx] == k);
                        assert forall|a: int, b: int| 0 <= a < b < out@.len() implies out@[a] != out@[b] by {
                            if b == before.len() {
                                assert(before[a] == out@[a]);
                            } else {
                                assert(before[a] == out@[a] && before[b] == out@[b]);
                            }
                        }
                    }
                }
            },
            None => {},
        }
    }
    out
}

impl ModuleDiscovery {
    /// The DHT queries under way, by id.
    pub closed spec fn spec_queries(&self) -> Map<u64, DiscoveryQuery> {
        self.pending_queries@
    }

    /// The requests under way, by id.
    pub closed spec fn spec_requests(&self) -> Map<u64, DiscoveryQuery> {
        self.pending_requests@
    }

    /// Nothing under way.
    pub fn new() -> (r: Self)
        ensures
            r.spec_queries() == Map::<u64, DiscoveryQuery>::empty(),
            r.spec_requests() == Map::<u64, DiscoveryQuery>::empty(),
    {
        ModuleDiscovery { pending_queries: HashMap::new(), pending_requests: HashMap::new() }
    }

    /// The DHT key of a module's metadata: `module:<cid>`.
    pub fn metadata_key(cid: &ModuleCid) -> (r: Vec<u8>)
        ensures
            r@ == utf8("module:"@ + cid.0@),
    {
        let mut key = lit("module:");
        key.append(cid.0.as_str());
        copy_bytes(key.as_str().as_bytes())
    }

    /// The DHT key of a name and version: `name:<name>:<version>`.
    pub fn name_key(name: &str, version: &str) -> (r: Vec<u8>)
        ensures
            r@ == utf8("name:"@ + name@ + ":"@ + version@),
    {
        let mut key = lit("name:");
        key.append(name);
        key.append(":");
        key.append(version);
        copy_bytes(key.as_str().as_bytes())
    }

    /// Records a DHT query started now.
    pub fn register_dht_query(&mut self, query_id: u64, query_type: QueryType)
        ensures
            final(self).spec_queries().dom() == old(self).spec_queries().dom().insert(query_id),
            final(self).spec_queries()[query_id].query_type == query_type,
            forall|k: u64| k != query_id && #[trigger] old(self).spec_queries().contains_key(k)
                ==> final(self).spec_queries()[k] == old(self).spec_queries()[k],
            final(self).spec_requests() == old(self).spec_requests(),
    {
        self.pending_queries.insert(query_id, DiscoveryQuery { query_type, initiated_at: instant_now() });
    }

    /// Records a request started now.
    pub fn register_request(&mut self, request_id: u64, query_type: QueryType)
        ensures
            final(self).spec_requests().dom() == old(self).spec_requests().dom().insert(request_id),
            final(self).spec_requests()[request_id].query_type == query_type,
            forall|k: u64| k != request_id && #[trigger] old(self).spec_requests().contains_key(k)
                ==> final(self).spec_requests()[k] == old(self).spec_requests()[k],
            final(self).spec_queries() == old(self).spec_queries(),
    {
        self.pending_requests.insert(request_id, DiscoveryQuery { query_type, initiated_at: instant_now() });
    }

    /// Ends a DHT query, giving what it looked for.
    pub fn complete_dht_query(&mut self, query_id: u64) -> (r: Option<QueryType>)
        ensures
            final(self).spec_queries() == old(self).spec_queries().remove(query_id),
            final(self).spec_requests() == old(self).spec_requests(),
            match r {
                Some(t) => old(self).spec_queries().contains_key(query_id) && t == old(self).spec_queries()[query_id].query_type,
                None => !old(self).spec_queries().contains_key(query_id),
            },
    {
        match self.pending_queries.remove(&query_id) {
            Some(q) => Some(q.query_type),
            None => None,
        }
    }

    /// Ends a request, giving what it looked for.
    pub fn complete_request(&mut self, request_id: u64) -> (r: Option<QueryType>)
        ensures
            final(self).spec_requests() == old(self).spec_requests().remove(request_id),
            final(self).spec_queries() == old(self).spec_queries(),
            match r {
                Some(t) => old(self).spec_requests().contains_key(request_id) && t == old(self).spec_requests()[request_id].query_type,
                None => !old(self).spec_requests().contains_key(request_id),
            },
    {
        match self.pending_requests.remove(&request_id) {
            Some(q) => Some(q.query_type),
            None => None,
        }
    }

    /// The CID a name record holds: its value as UTF-8 text.
    pub fn parse_cid(&self, data: &[u8]) -> (r: Result<String, DiscoveryError>)
        ensures
            r is Ok <==> vstd::utf8::valid_utf8(data@),
            r matches Ok(s) ==> utf8(s@) == data@,
            r matches Err(e) ==> e == DiscoveryError::InvalidCidRecord,
    {
        match utf8_string(data) {
            Ok(s) => Ok(s),
            Err(_) => Err(DiscoveryError::InvalidCidRecord),
        }
    }

    /// How many queries and requests are under way.
    pub fn stats(&self) -> (r: DiscoveryStats)
        ensures
            r.pending_dht_queries == self.spec_queries().len(),
            r.pending_requests == self.spec_requests().len(),
    {
        DiscoveryStats {
            pending_dht_queries: self.pending_queries.len(),
            pending_requests: self.pending_requests.len(),
        }
    }

    /// Forgets the DHT queries with the given ids.
    pub fn drop_queries(&mut self, ids: &Vec<u64>)
        ensures
            final(self).spec_queries() == old(self).spec_queries().remove_keys(ids@.to_set()),
            final(self).spec_requests() == old(self).spec_requests(),
    {
        drop_ids(&mut self.pending_queries, ids);
    }

    /// Forgets the requests with the given ids.
    pub fn drop_requests(&mut self, ids: &Vec<u64>)
        ensures
            final(self).spec_requests() == old(self).spec_requests().remove_keys(ids@.to_set()),
            final(self).spec_queries() == old(self).spec_queries(),
    {
        drop_ids(&mut self.pending_requests, ids);
    }

    /// Forgets the queries and requests started longer than `timeout` ago;
    /// the others stay as they were. Which ones are old depends on the
    /// clock.
    pub fn cleanup_stale_queries(&mut self, timeout: Duration)
        ensures
            final(self).spec_queries().submap_of(old(self).spec_queries()),
            final(self).spec_requests().submap_of(old(self).spec_requests()),
    {
        let stale_q = stale_ids(&self.pending_queries, &timeout);
        self.drop_queries(&stale_q);
        let stale_r = stale_ids(&self.pending_requests, &timeout);
        self.drop_requests(&stale_r);
    }
}

} // verus!
