//! Named replicated maps and sets of a node, and the operations exchanged
//! to keep replicas in step.

use vstd::prelude::*;
use vstd::string::StringExecFns;
use crate::assoc::TextMap;
use crate::crdt::types::{Timestamp, Token, CrdtOperation};
use crate::crdt::lww_map::{LwwMap, LwwState, lww_set, lww_remove, lww_live};
use crate::crdt::or_set::{
    OrSet, TokenMap, add_tokens, tokens_in, or_elements, or_present, byte_views, active_tokens,
};
use crate::text::{lit, copy_string, copy_bytes};

verus! {

/// The contents of an OR-Set: its add and remove tokens.
pub type OrState = (TokenMap, TokenMap);

/// The kind of a replicated structure.
#[derive(Debug, Clone, Copy, PartialEq, Eq, Structural)]
pub enum CrdtType {
    LwwMap,
    OrSet,
}

/// Operations of one node on one named structure, to send to the others.
#[derive(Debug, Clone)]
pub struct CrdtSyncMessage {
    /// Sending node
    pub node_id: u64,
    /// Name of the structure
    pub crdt_name: String,
    /// Its kind
    pub crdt_type: CrdtType,
    /// The operations, in order
    pub operations: Vec<CrdtOperation>,
}

/// Why an operation was not applied.
#[derive(Debug, Clone, Copy, PartialEq, Eq, Structural)]
pub enum SyncError {
    /// The operation is not one of the structure's kind.
    TypeMismatch(CrdtType),
}

impl SyncError {
    /// The text shown for the error.
    pub fn message(&self) -> (r: String)
        ensures
            r@ == match *self {
                SyncError::TypeMismatch(CrdtType::LwwMap) => "CRDT type mismatch: LwwMap does not match operation"@,
                SyncError::TypeMismatch(CrdtType::OrSet) => "CRDT type mismatch: OrSet does not match operation"@,
            },
    {
        match self {
            SyncError::TypeMismatch(CrdtType::LwwMap) => lit("CRDT type mismatch: LwwMap does not match operation"),
            SyncError::TypeMismatch(CrdtType::OrSet) => lit("CRDT type mismatch: OrSet does not match operation"),
        }
    }
}

/// The contents of the map `name`; empty if there is none.
pub open spec fn lww_of(m: Map<Seq<char>, LwwState>, name: Seq<char>) -> LwwState {
    if m.contains_key(name) {
        m[name]
    } else {
        Map::empty()
    }
}

/// The contents of the set `name`; empty if there is none.
pub open spec fn or_of(m: Map<Seq<char>, OrState>, name: Seq<char>) -> OrState {
    if m.contains_key(name) {
        m[name]
    } else {
        (Map::empty(), Map::empty())
    }
}

/// The remove tokens `r` with `ts` added for every element of `es`.
pub open spec fn mark_removed(r: TokenMap, es: Set<Seq<u8>>, ts: Set<Token>) -> TokenMap {
    Map::new(
        |e: Seq<u8>| r.contains_key(e) || es.contains(e),
        |e: Seq<u8>| if es.contains(e) { tokens_in(r, e).union(ts) } else { r[e] },
    )
}

/// The state a set is left in when `element` is removed here: every add
/// token of it recorded so far is marked removed.
pub open spec fn removed_locally(v: OrState, e: Seq<u8>) -> OrState {
    (v.0, if v.0.contains_key(e) { add_tokens(v.1, e, v.0[e]) } else { v.1 })
}

/// The tokens a remove of `e` sends to the other nodes: those of its add
/// tokens not removed yet.
pub open spec fn sent_tokens(v: OrState, e: Seq<u8>) -> Set<Token> {
    if v.0.contains_key(e) {
        active_tokens(v, e)
    } else {
        Set::empty()
    }
}

/// No add token was recorded for two different elements.
pub open spec fn tokens_distinct(m: TokenMap) -> bool {
    forall|a: Seq<u8>, b: Seq<u8>, t: Token|
        #![trigger tokens_in(m, a).contains(t), tokens_in(m, b).contains(t)]
        a != b && tokens_in(m, a).contains(t) ==> !tokens_in(m, b).contains(t)
}

/// What applying `op` to the structure `name` of kind `ty` gives, on the
/// maps `lww` and sets `ors` of a node; a structure that does not exist is
/// made empty first. An operation of the other kind is refused.
pub open spec fn apply_spec(
    lww: Map<Seq<char>, LwwState>,
    ors: Map<Seq<char>, OrState>,
    name: Seq<char>,
    ty: CrdtType,
    op: CrdtOperation,
) -> Result<(Map<Seq<char>, LwwState>, Map<Seq<char>, OrState>), SyncError> {
    match (ty, op) {
        (CrdtType::LwwMap, CrdtOperation::LwwMapSet { key, value, timestamp }) => Ok(
            (lww.insert(name, lww_set(lww_of(lww, name), key@, value@, timestamp)), ors),
        ),
        (CrdtType::LwwMap, CrdtOperation::LwwMapRemove { key, timestamp }) => Ok(
            (lww.insert(name, lww_remove(lww_of(lww, name), key@, timestamp)), ors),
        ),
        (CrdtType::OrSet, CrdtOperation::OrSetAdd { value, token, .. }) => Ok(
            (lww, ors.insert(name, (add_tokens(or_of(ors, name).0, value@, set![token]), or_of(ors, name).1))),
        ),
        (CrdtType::OrSet, CrdtOperation::OrSetRemove { tokens, .. }) => {
            let v = or_of(ors, name);
            Ok((lww, ors.insert(name, (v.0, mark_removed(v.1, or_elements(v), tokens@.to_set())))))
        },
        _ => Err(SyncError::TypeMismatch(ty)),
    }
}

/// The replicated maps and sets of a node, by name.
pub struct CrdtSync {
    node_id: u64,
    lww_maps: TextMap<LwwMap>,
    or_sets: TextMap<OrSet>,
    topic: String,
}

impl CrdtSync {
    /// Every structure is well formed and belongs to this node.
    pub closed spec fn wf(&self) -> bool {
        &&& forall|k: Seq<char>| #[trigger] self.lww_maps@.contains_key(k) ==> self.lww_maps@[k].wf()
            && self.lww_maps@[k].node() == self.node_id
        &&& forall|k: Seq<char>| #[trigger] self.or_sets@.contains_key(k) ==> self.or_sets@[k].wf()
            && self.or_sets@[k].node() == self.node_id
    }

    /// The gossip topic.
    pub closed spec fn spec_topic(&self) -> Seq<char> {
        self.topic@
    }

    /// This node.
    pub closed spec fn node(&self) -> u64 {
        self.node_id
    }

    /// The contents of the maps, by name.
    pub closed spec fn maps(&self) -> Map<Seq<char>, LwwState> {
        self.lww_maps@.map_values(|m: LwwMap| m@)
    }

    /// The contents of the sets, by name.
    pub closed spec fn sets(&self) -> Map<Seq<char>, OrState> {
        self.or_sets@.map_values(|s: OrSet| s@)
    }

    /// A node with no structures yet.
    pub fn new(node_id: u64) -> (r: Self)
        ensures
            r.wf(),
            r.node() == node_id,
            r.maps() == Map::<Seq<char>, LwwState>::empty(),
            r.sets() == Map::<Seq<char>, OrState>::empty(),
            r.spec_topic() == "pied-piper-crdt-sync"@,
    {
        let r = CrdtSync {
            node_id,
            lww_maps: TextMap::new(),
            or_sets: TextMap::new(),
            topic: lit("pied-piper-crdt-sync"),
        };
        assert(r.maps() =~= Map::<Seq<char>, LwwState>::empty());
        assert(r.sets() =~= Map::<Seq<char>, OrState>::empty());
        r
    }

    /// The gossip topic on which operations are exchanged.
    pub fn topic(&self) -> (r: &str)
        ensures
            r@ == self.spec_topic(),
    {
        self.topic.as_str()
    }

    fn take_map(&mut self, name: &str) -> (r: LwwMap)
        requires
            old(self).wf(),
        ensures
            final(self).wf(),
            final(self).node() == old(self).node(),
            final(self).lww_maps@ == old(self).lww_maps@.remove(name@),
            final(self).or_sets@ == old(self).or_sets@,
            final(self).topic == old(self).topic,
            r.wf(),
            r.node() == old(self).node(),
            r@ == lww_of(old(self).maps(), name@),
    {
        match self.lww_maps.remove(name) {
            Some(m) => m,
            None => {
                let m = LwwMap::new(self.node_id);
                assert(m@ =~= lww_of(old(self).maps(), name@));
                m
            },
        }
    }

    fn put_map(&mut self, name: &str, m: LwwMap)
        requires
            old(self).wf(),
            m.wf(),
            m.node() == old(self).node(),
        ensures
            final(self).wf(),
            final(self).node() == old(self).node(),
            final(self).maps() == old(self).maps().insert(name@, m@),
            final(self).or_sets@ == old(self).or_sets@,
            final(self).topic == old(self).topic,
    {
        let ghost m_view = m@;
        self.lww_maps.insert(copy_string(name), m);
        assert(self.maps() =~= old(self).maps().insert(name@, m_view));
    }

    fn take_set(&mut self, name: &str) -> (r: OrSet)
        requires
            old(self).wf(),
        ensures
            final(self).wf(),
            final(self).node() == old(self).node(),
            final(self).or_sets@ == old(self).or_sets@.remove(name@),
            final(self).lww_maps@ == old(self).lww_maps@,
            final(self).topic == old(self).topic,
            r.wf(),
            r.node() == old(self).node(),
            r@ == or_of(old(self).sets(), name@),
    {
        match self.or_sets.remove(name) {
            Some(s) => s,
            None => {
                let s = OrSet::new(self.node_id);
                assert(s@ =~= or_of(old(self).sets(), name@));
                s
            },
        }
    }

    fn put_set(&mut self, name: &str, s: OrSet)
        requires
            old(self).wf(),
            s.wf(),
            s.node() == old(self).node(),
        ensures
            final(self).wf(),
            final(self).node() == old(self).node(),
            final(self).sets() == old(self).sets().insert(name@, s@),
            final(self).lww_maps@ == old(self).lww_maps@,
            final(self).topic == old(self).topic,
    {
        let ghost s_view = s@;
        self.or_sets.insert(copy_string(name), s);
        assert(self.sets() =~= old(self).sets().insert(name@, s_view));
    }

    /// A copy of the map `name`, made empty first if there is none.
    pub fn get_lww_map(&mut self, name: &str) -> (r: LwwMap)
        requires
            old(self).wf(),
        ensures
            final(self).wf(),
            final(self).node() == old(self).node(),
            final(self).maps() == old(self).maps().insert(name@, lww_of(old(self).maps(), name@)),
            final(self).sets() == old(self).sets(),
            r.wf(),
            r@ == lww_of(old(self).maps(), name@),
            r.node() == old(self).node(),
    {
        let m = self.take_map(name);
        let copy = m.duplicate();
        self.put_map(name, m);
        copy
    }

    /// A copy of the set `name`, made empty first if there is none.
    pub fn get_or_set(&mut self, name: &str) -> (r: OrSet)
        requires
            old(self).wf(),
        ensures
            final(self).wf(),
            final(self).node() == old(self).node(),
            final(self).sets() == old(self).sets().insert(name@, or_of(old(self).sets(), name@)),
            final(self).maps() == old(self).maps(),
            r.wf(),
            r@ == or_of(old(self).sets(), name@),
            r.node() == old(self).node(),
    {
        let s = self.take_set(name);
        let copy = s.duplicate();
        self.put_set(name, s);
        copy
    }

    /// Sets `key` to `value` in the map `name` at `timestamp`; gives the
    /// operation to send.
    pub fn lww_map_set_at(&mut self, name: &str, key: String, value: Vec<u8>, timestamp: Timestamp) -> (r: Result<CrdtOperation, SyncError>)
        requires
            old(self).wf(),
        ensures
            final(self).wf(),
            final(self).node() == old(self).node(),
            final(self).maps() == old(self).maps().insert(
                name@,
                lww_set(lww_of(old(self).maps(), name@), key@, value@, timestamp),
            ),
            final(self).sets() == old(self).sets(),
            r matches Ok(CrdtOperation::LwwMapSet { key: k, value: v, timestamp: t }) && k@ == key@
                && v@ == value@ && t == timestamp,
    {
        let mut m = self.take_map(name);
        m.set_with_timestamp(copy_string(key.as_str()), copy_bytes(value.as_slice()), timestamp);
        self.put_map(name, m);
        Ok(CrdtOperation::LwwMapSet { key, value, timestamp })
    }

    /// Sets `key` to `value` in the map `name` now (see `lww_map_set_at`).
    pub fn lww_map_set(&mut self, name: &str, key: String, value: Vec<u8>) -> (r: Result<CrdtOperation, SyncError>)
        requires
            old(self).wf(),
        ensures
            final(self).wf(),
            final(self).node() == old(self).node(),
            final(self).sets() == old(self).sets(),
            r matches Ok(CrdtOperation::LwwMapSet { key: k, value: v, timestamp: t }) && k@ == key@
                && v@ == value@ && t.node_id == old(self).node() && final(self).maps() == old(self).maps().insert(
                name@,
                lww_set(lww_of(old(self).maps(), name@), key@, value@, t),
            ),
    {
        let timestamp = Timestamp::now(self.node_id);
        self.lww_map_set_at(name, key, value, timestamp)
    }

    /// Removes `key` from the map `name` at `timestamp`; gives the
    /// operation to send.
    pub fn lww_map_remove_at(&mut self, name: &str, key: &str, timestamp: Timestamp) -> (r: Result<CrdtOperation, SyncError>)
        requires
            old(self).wf(),
        ensures
            final(self).wf(),
            final(self).node() == old(self).node(),
            final(self).maps() == old(self).maps().insert(
                name@,
                lww_remove(lww_of(old(self).maps(), name@), key@, timestamp),
            ),
            final(self).sets() == old(self).sets(),
            r matches Ok(CrdtOperation::LwwMapRemove { key: k, timestamp: t }) && k@ == key@ && t
                == timestamp,
    {
        let mut m = self.take_map(name);
        m.remove_with_timestamp(key, timestamp);
        self.put_map(name, m);
        Ok(CrdtOperation::LwwMapRemove { key: copy_string(key), timestamp })
    }

    /// Removes `key` from the map `name` now (see `lww_map_remove_at`).
    pub fn lww_map_remove(&mut self, name: &str, key: &str) -> (r: Result<CrdtOperation, SyncError>)
        requires
            old(self).wf(),
        ensures
            final(self).wf(),
            final(self).node() == old(self).node(),
            final(self).sets() == old(self).sets(),
            r matches Ok(CrdtOperation::LwwMapRemove { key: k, timestamp: t }) && k@ == key@
                && t.node_id == old(self).node() && final(self).maps() == old(self).maps().insert(
                name@,
                lww_remove(lww_of(old(self).maps(), name@), key@, t),
            ),
    {
        let timestamp = Timestamp::now(self.node_id);
        self.lww_map_remove_at(name, key, timestamp)
    }

    /// The value of `key` in the map `name`.
    pub fn lww_map_get(&self, name: &str, key: &str) -> (r: Option<Vec<u8>>)
        requires
            self.wf(),
        ensures
            match r {
                Some(v) => lww_live(lww_of(self.maps(), name@)).contains_key(key@) && v@ == lww_live(
                    lww_of(self.maps(), name@),
                )[key@],
                None => !lww_live(lww_of(self.maps(), name@)).contains_key(key@),
            },
    {
        match self.lww_maps.get(name) {
            Some(m) => match m.get(key) {
                Some(v) => Some(copy_bytes(v)),
                None => None,
            },
            None => None,
        }
    }

    /// The keys of the map `name`, each once.
    pub fn lww_map_keys(&self, name: &str) -> (r: Vec<String>)
        requires
            self.wf(),
        ensures
            r@.map_values(|s: String| s@).no_duplicates(),
            r@.map_values(|s: String| s@).to_set() == lww_live(lww_of(self.maps(), name@)).dom(),
    {
        match self.lww_maps.get(name) {
            Some(m) => m.keys(),
            None => {
                let v: Vec<String> = Vec::new();
                assert(v@.map_values(|s: String| s@) =~= Seq::<Seq<char>>::empty());
                assert(Seq::<Seq<char>>::empty().to_set() =~= Set::<Seq<char>>::empty());
                v
            },
        }
    }

    /// The number of keys of the map `name`.
    pub fn lww_map_len(&self, name: &str) -> (r: usize)
        requires
            self.wf(),
        ensures
            r == lww_live(lww_of(self.maps(), name@)).len(),
    {
        match self.lww_maps.get(name) {
            Some(m) => m.len(),
            None => {
                assert(lww_live(lww_of(self.maps(), name@)) =~= Map::<Seq<char>, Seq<u8>>::empty());
                0
            },
        }
    }

    /// Adds `element` to the set `name` with a fresh token; gives the
    /// operation to send.
    pub fn or_set_add(&mut self, name: &str, element: Vec<u8>) -> (r: Result<CrdtOperation, SyncError>)
        requires
            old(self).wf(),
        ensures
            final(self).wf(),
            final(self).node() == old(self).node(),
            final(self).maps() == old(self).maps(),
            r matches Ok(CrdtOperation::OrSetAdd { key: k, value: v, token: t }) && k@ == name@ && v@
                == element@ && t.timestamp.node_id == old(self).node() && final(self).sets()
                == old(self).sets().insert(
                name@,
                (add_tokens(or_of(old(self).sets(), name@).0, element@, set![t]), or_of(old(self).sets(), name@).1),
            ),
    {
        let mut s = self.take_set(name);
        let token = s.add(copy_bytes(element.as_slice()));
        self.put_set(name, s);
        Ok(CrdtOperation::OrSetAdd { key: copy_string(name), value: element, token })
    }

    /// Removes `element` from the set `name` (all its tokens seen here);
    /// gives the operation to send, with the tokens that were live.
    pub fn or_set_remove(&mut self, name: &str, element: &[u8]) -> (r: Result<CrdtOperation, SyncError>)
        requires
            old(self).wf(),
        ensures
            final(self).wf(),
            final(self).node() == old(self).node(),
            final(self).maps() == old(self).maps(),
            final(self).sets() == old(self).sets().insert(
                name@,
                removed_locally(or_of(old(self).sets(), name@), element@),
            ),
            r matches Ok(CrdtOperation::OrSetRemove { key: k, tokens }) && k@ == name@ && tokens@.to_set()
                == sent_tokens(or_of(old(self).sets(), name@), element@),
    {
        let mut s = self.take_set(name);
        let tokens = match s.get_tokens(element) {
            Some(t) => t,
            None => Vec::new(),
        };
        proof {
            if !s@.0.contains_key(element@) {
                assert(tokens@.to_set() =~= Set::<Token>::empty());
            } else if tokens@.len() == 0 {
                assert(tokens@.to_set() =~= Set::<Token>::empty());
                assert(active_tokens(s@, element@) =~= Set::<Token>::empty());
            }
        }
        s.remove(element);
        self.put_set(name, s);
        Ok(CrdtOperation::OrSetRemove { key: copy_string(name), tokens })
    }

    /// Whether `element` is in the set `name`.
    pub fn or_set_contains(&self, name: &str, element: &[u8]) -> (r: bool)
        requires
            self.wf(),
        ensures
            r == or_present(or_of(self.sets(), name@), element@),
    {
        match self.or_sets.get(name) {
            Some(s) => s.contains(element),
            None => {
                proof {
                    let v = or_of(self.sets(), name@);
                    if or_present(v, element@) {
                        let t = choose|t: Token| #[trigger] active_tokens(v, element@).contains(t);
                        assert(tokens_in(v.0, element@).contains(t));
                    }
                }
                false
            },
        }
    }

    /// The elements of the set `name`, each once.
    pub fn or_set_elements(&self, name: &str) -> (r: Vec<Vec<u8>>)
        requires
            self.wf(),
        ensures
            byte_views(r@).no_duplicates(),
            byte_views(r@).to_set() == or_elements(or_of(self.sets(), name@)),
    {
        match self.or_sets.get(name) {
            Some(s) => s.elements(),
            None => {
                let v: Vec<Vec<u8>> = Vec::new();
                assert(byte_views(v@) =~= Seq::<Seq<u8>>::empty());
                assert(Seq::<Seq<u8>>::empty().to_set() =~= Set::<Seq<u8>>::empty());
                assert(or_elements(or_of(self.sets(), name@)) =~= Set::<Seq<u8>>::empty());
                v
            },
        }
    }

    /// The number of elements of the set `name`.
    pub fn or_set_len(&self, name: &str) -> (r: usize)
        requires
            self.wf(),
        ensures
            r == or_elements(or_of(self.sets(), name@)).len(),
    {
        match self.or_sets.get(name) {
            Some(s) => s.len(),
            None => {
                assert(or_elements(or_of(self.sets(), name@)) =~= Set::<Seq<u8>>::empty());
                0
            },
        }
    }

    /// Applies an operation received for the structure `name` of kind
    /// `crdt_type` (see `apply_spec`).
    pub fn apply_operation(&mut self, crdt_name: &str, crdt_type: CrdtType, operation: CrdtOperation) -> (r: Result<(), SyncError>)
        requires
            old(self).wf(),
        ensures
            final(self).wf(),
            final(self).node() == old(self).node(),
            match apply_spec(old(self).maps(), old(self).sets(), crdt_name@, crdt_type, operation) {
                Ok((m, s)) => r is Ok && final(self).maps() == m && final(self).sets() == s,
                Err(e) => r == Err::<(), SyncError>(e) && final(self).maps() == old(self).maps()
                    && final(self).sets() == old(self).sets(),
            },
    {
        match (crdt_type, operation) {
            (CrdtType::LwwMap, CrdtOperation::LwwMapSet { key, value, timestamp }) => {
                let mut m = self.take_map(crdt_name);
                m.set_with_timestamp(key, value, timestamp);
                self.put_map(crdt_name, m);
                Ok(())
            },
            (CrdtType::LwwMap, CrdtOperation::LwwMapRemove { key, timestamp }) => {
                let mut m = self.take_map(crdt_name);
                m.remove_with_timestamp(key.as_str(), timestamp);
                self.put_map(crdt_name, m);
                Ok(())
            },
            (CrdtType::OrSet, CrdtOperation::OrSetAdd { value, token, .. }) => {
                let mut s = self.take_set(crdt_name);
                s.add_with_token(value, token);
                self.put_set(crdt_name, s);
                Ok(())
            },
            (CrdtType::OrSet, CrdtOperation::OrSetRemove { tokens, .. }) => {
                let mut s = self.take_set(crdt_name);
                remove_from_present(&mut s, tokens.as_slice());
                self.put_set(crdt_name, s);
                Ok(())
            },
            _ => Err(SyncError::TypeMismatch(crdt_type)),
        }
    }

    /// Applies the operations of a message from another node, in order,
    /// stopping at the first refused; a message from this node is ignored.
    pub fn handle_sync_message(&mut self, message: CrdtSyncMessage) -> (r: Result<(), SyncError>)
        requires
            old(self).wf(),
        ensures
            final(self).wf(),
            final(self).node() == old(self).node(),
            message.node_id == old(self).node() ==> r is Ok && final(self).maps() == old(self).maps()
                && final(self).sets() == old(self).sets(),
            message.node_id != old(self).node() ==> match apply_all(
                old(self).maps(),
                old(self).sets(),
                message.crdt_name@,
                message.crdt_type,
                message.operations@,
            ) {
                Ok((m, s)) => r is Ok && final(self).maps() == m && final(self).sets() == s,
                Err(e) => r == Err::<(), SyncError>(e),
            },
    {
        if message.node_id == self.node_id {
            return Ok(());
        }
        let ghost ops = message.operations@;
        let ghost sender = message.node_id;
        let n: usize = message.operations.len();
        let ghost m0 = self.maps();
        let ghost s0 = self.sets();
        let name = message.crdt_name;
        let ty = message.crdt_type;
        let mut pending = message.operations;
        let mut operations: Vec<CrdtOperation> = Vec::new();
        while pending.len() > 0
            invariant
                ops == pending@ + operations@.reverse(),
            decreases pending@.len(),
        {
            let op = pending.pop().unwrap();
            proof {
                assert(ops =~= pending@ + operations@.push(op).reverse());
            }
            operations.push(op);
        }
        proof {
            assert(ops =~= operations@.reverse());
            assert(apply_all(m0, s0, name@, ty, ops.take(0)) == Ok::<(Map<Seq<char>, LwwState>, Map<Seq<char>, OrState>), SyncError>((m0, s0))) by {
                assert(ops.take(0) =~= Seq::<CrdtOperation>::empty());
            }
        }
        let mut i: usize = 0;
        while operations.len() > 0
            invariant
                self.wf(),
                self.node() == old(self).node(),
                sender != self.node(),
                sender == message.node_id,
                m0 == old(self).maps(),
                s0 == old(self).sets(),
                name@ == message.crdt_name@,
                ty == message.crdt_type,
                ops == message.operations@,
                ops.len() == n,
                i + operations@.len() == ops.len(),
                forall|j: int| 0 <= j < operations@.len() ==> #[trigger] operations@[j] == ops[ops.len() - 1 - j],
                apply_all(m0, s0, name@, ty, ops.take(i as int)) == Ok::<(Map<Seq<char>, LwwState>, Map<Seq<char>, OrState>), SyncError>((self.maps(), self.sets())),
            decreases operations@.len(),
        {
            let ghost before = operations@;
            let op = operations.pop().unwrap();
            proof {
                assert(op == ops[i as int]);
                assert(ops.take(i + 1).drop_last() =~= ops.take(i as int));
                assert(ops.take(i + 1).last() == op);
                assert forall|j: int| 0 <= j < operations@.len() implies #[trigger] operations@[j] == ops[ops.len() - 1 - j] by {
                    assert(operations@[j] == before[j]);
                }
            }
            let ghost ms = self.maps();
            let ghost ss = self.sets();
            let ghost opv = op;
            let res = self.apply_operation(name.as_str(), ty, op);
            proof {
                assert(apply_all(m0, s0, name@, ty, ops.take(i + 1)) == apply_spec(ms, ss, name@, ty, opv));
            }
            match res {
                Ok(()) => {},
                Err(e) => {
                    proof {
                        assert(apply_all(m0, s0, name@, ty, ops.take(i + 1)) == Err::<(Map<Seq<char>, LwwState>, Map<Seq<char>, OrState>), SyncError>(e));
                        lemma_apply_all_stops(m0, s0, name@, ty, ops, i + 1);
                    }
                    return Err(e);
                },
            }
            i = i + 1;
        }
        proof {
            assert(ops.take(i as int) =~= ops);
        }
        Ok(())
    }

    /// A message carrying `operations` on the structure `crdt_name` from
    /// this node.
    pub fn create_sync_message(&self, crdt_name: String, crdt_type: CrdtType, operations: Vec<CrdtOperation>) -> (r: CrdtSyncMessage)
        ensures
            r.node_id == self.node(),
            r.crdt_name == crdt_name,
            r.crdt_type == crdt_type,
            r.operations == operations,
    {
        CrdtSyncMessage { node_id: self.node_id, crdt_name, crdt_type, operations }
    }
}

/// Applying operations in order; the first refused one stops the rest.
pub open spec fn apply_all(
    lww: Map<Seq<char>, LwwState>,
    ors: Map<Seq<char>, OrState>,
    name: Seq<char>,
    ty: CrdtType,
    ops: Seq<CrdtOperation>,
) -> Result<(Map<Seq<char>, LwwState>, Map<Seq<char>, OrState>), SyncError>
    decreases ops.len(),
{
    if ops.len() == 0 {
        Ok((lww, ors))
    } else {
        match apply_all(lww, ors, name, ty, ops.drop_last()) {
            Ok((m, s)) => apply_spec(m, s, name, ty, ops.last()),
            Err(e) => Err(e),
        }
    }
}

proof fn lemma_apply_all_stops(
    lww: Map<Seq<char>, LwwState>,
    ors: Map<Seq<char>, OrState>,
    name: Seq<char>,
    ty: CrdtType,
    ops: Seq<CrdtOperation>,
    k: int,
)
    requires
        0 <= k <= ops.len(),
        apply_all(lww, ors, name, ty, ops.take(k)) is Err,
    ensures
        apply_all(lww, ors, name, ty, ops) == apply_all(lww, ors, name, ty, ops.take(k)),
    decreases ops.len() - k,
{
    if k == ops.len() {
        assert(ops.take(k) =~= ops);
    } else {
        assert(ops.take(k + 1).drop_last() =~= ops.take(k));
        lemma_apply_all_stops(lww, ors, name, ty, ops, k + 1);
    }
}

fn remove_from_present(s: &mut OrSet, tokens: &[Token])
    requires
        old(s).wf(),
    ensures
        final(s).wf(),
        final(s).node() == old(s).node(),
        final(s)@.0 == old(s)@.0,
        final(s)@.1 == mark_removed(old(s)@.1, or_elements(old(s)@), tokens@.to_set()),
{
    let els = s.elements();
    let ghost v0 = s@;
    let ghost es = byte_views(els@);
    let ghost ts = tokens@.to_set();
    let mut i: usize = 0;
    proof {
        assert(mark_removed(v0.1, es.take(0).to_set(), ts) =~= v0.1) by {
            assert(es.take(0).to_set() =~= Set::<Seq<u8>>::empty());
        }
    }
    while i < els.len()
        invariant
            0 <= i <= els@.len(),
            s.wf(),
            s.node() == old(s).node(),
            es == byte_views(els@),
            es.no_duplicates(),
            es.to_set() == or_elements(v0),
            ts == tokens@.to_set(),
            v0 == old(s)@,
            s@.0 == v0.0,
            s@.1 == mark_removed(v0.1, es.take(i as int).to_set(), ts),
        decreases els@.len() - i,
    {
        let ghost before = s@.1;
        s.remove_tokens(els[i].as_slice(), tokens);
        proof {
            let e = es[i as int];
            assert(s@.1 == add_tokens(before, els@[i as int]@, tokens@.to_set()));
            assert(els@[i as int]@ == e);
            assert(es.take(i + 1) =~= es.take(i as int).push(e));
            es.take(i as int).lemma_push_to_set_commute(e);
            let prev = es.take(i as int).to_set();
            assert(!prev.contains(e)) by {
                if prev.contains(e) {
                    let j = choose|j: int| 0 <= j < i && es.take(i as int)[j] == e;
                    assert(es[j] == es[i as int]);
                }
            }
            let lhs = s@.1;
            let rhs = mark_removed(v0.1, prev.insert(e), ts);
            assert forall|k: Seq<u8>| #[trigger] lhs.contains_key(k) <==> rhs.contains_key(k) by {
            }
            assert forall|k: Seq<u8>| lhs.contains_key(k) implies #[trigger] lhs[k] == rhs[k] by {
                if k == e {
                    assert(!prev.contains(e));
                    assert(tokens_in(before, e) == tokens_in(v0.1, e)) by {
                        if v0.1.contains_key(e) {
                            assert(before.contains_key(e));
                            assert(before[e] == v0.1[e]);
                        } else {
                            assert(!before.contains_key(e));
                        }
                    }
                    assert(lhs == add_tokens(before, e, ts));
                    assert(lhs[k] == tokens_in(before, e).union(ts));
                    assert(prev.insert(e).contains(e));
                    assert(rhs[k] == tokens_in(v0.1, e).union(ts));
                } else {
                    assert(lhs[k] == before[k]);
                    assert(prev.insert(e).contains(k) == prev.contains(k));
                }
            }
            assert(lhs =~= rhs);
        }
        i = i + 1;
    }
    proof {
        assert(es.take(els@.len() as int) =~= es);
    }
}

/// A write to a map, sent to a replica in the same state, leaves it in the
/// state the writer reached (see `lww_map_set` and `lww_map_remove`).
pub proof fn lemma_map_ops_replay(
    lww: Map<Seq<char>, LwwState>,
    ors: Map<Seq<char>, OrState>,
    name: Seq<char>,
    key: String,
    value: Vec<u8>,
    t: Timestamp,
)
    ensures
        apply_spec(lww, ors, name, CrdtType::LwwMap, CrdtOperation::LwwMapSet { key, value, timestamp: t })
            == Ok::<_, SyncError>((lww.insert(name, lww_set(lww_of(lww, name), key@, value@, t)), ors)),
        apply_spec(lww, ors, name, CrdtType::LwwMap, CrdtOperation::LwwMapRemove { key, timestamp: t })
            == Ok::<_, SyncError>((lww.insert(name, lww_remove(lww_of(lww, name), key@, t)), ors)),
{
}

/// An add to a set, sent to a replica in the same state, leaves it in the
/// state the adding node reached (see `or_set_add`).
pub proof fn lemma_set_add_replays(
    lww: Map<Seq<char>, LwwState>,
    ors: Map<Seq<char>, OrState>,
    name: Seq<char>,
    key: String,
    value: Vec<u8>,
    token: Token,
)
    ensures
        apply_spec(lww, ors, name, CrdtType::OrSet, CrdtOperation::OrSetAdd { key, value, token })
            == Ok::<_, SyncError>((lww, ors.insert(name, (add_tokens(or_of(ors, name).0, value@, set![token]), or_of(ors, name).1)))),
{
}

/// A remove reaches the other replicas: the tokens `or_set_remove` sends,
/// applied on a replica in the state the remover was in, hide the element
/// there as they did at the remover; no element shows up there that the
/// remover does not hold; and where no add token was recorded for two
/// elements, both hold the same elements.
pub proof fn lemma_remove_replays(
    lww: Map<Seq<char>, LwwState>,
    ors: Map<Seq<char>, OrState>,
    name: Seq<char>,
    key: String,
    e: Seq<u8>,
    tokens: Vec<Token>,
)
    requires
        tokens@.to_set() == sent_tokens(or_of(ors, name), e),
    ensures
        ({
            let v = or_of(ors, name);
            let local = removed_locally(v, e);
            &&& apply_spec(lww, ors, name, CrdtType::OrSet, CrdtOperation::OrSetRemove { key, tokens }) matches Ok(
                (m, s),
            )
            &&& m == lww
            &&& !or_elements(s[name]).contains(e)
            &&& !or_elements(local).contains(e)
            &&& or_elements(local) == or_elements(v).remove(e)
            &&& or_elements(s[name]).subset_of(or_elements(local))
            &&& tokens_distinct(v.0) ==> or_elements(s[name]) == or_elements(local)
        }),
{
    let v = or_of(ors, name);
    let ts = tokens@.to_set();
    let local = removed_locally(v, e);
    let es = or_elements(v);
    let remote: OrState = (v.0, mark_removed(v.1, es, ts));
    assert(apply_spec(lww, ors, name, CrdtType::OrSet, CrdtOperation::OrSetRemove { key, tokens }) == Ok::<_, SyncError>(
        (lww, ors.insert(name, remote)),
    ));
    // what each side records as removed, element by element
    assert forall|x: Seq<u8>| x != e implies #[trigger] tokens_in(local.1, x) == tokens_in(v.1, x) by {}
    assert(tokens_in(v.0, e).subset_of(tokens_in(local.1, e))) by {
        if v.0.contains_key(e) {
            assert(tokens_in(local.1, e) == tokens_in(v.1, e).union(v.0[e]));
        }
    }
    assert forall|x: Seq<u8>| #[trigger] tokens_in(remote.1, x) == (if es.contains(x) {
        tokens_in(v.1, x).union(ts)
    } else {
        tokens_in(v.1, x)
    }) by {}
    // the element is hidden on both sides
    assert(!or_present(local, e)) by {
        if or_present(local, e) {
            let t = choose|t: Token| #[trigger] active_tokens(local, e).contains(t);
            assert(tokens_in(v.0, e).contains(t));
        }
    }
    assert(!or_present(remote, e)) by {
        if or_present(remote, e) {
            let t = choose|t: Token| #[trigger] active_tokens(remote, e).contains(t);
            if es.contains(e) {
                assert(v.0.contains_key(e));
                assert(ts.contains(t));
            } else {
                assert(active_tokens(v, e).contains(t));
                assert(or_present(v, e));
            }
        }
    }
    // the local elements are the old ones without `e`
    assert forall|x: Seq<u8>| #[trigger] or_present(local, x) <==> (x != e && or_present(v, x)) by {
        if x != e {
            assert(active_tokens(local, x) =~= active_tokens(v, x));
        }
    }
    assert(or_elements(local) =~= es.remove(e));
    // every element present remotely is present locally
    assert forall|x: Seq<u8>| #[trigger] or_present(remote, x) implies or_present(v, x) by {
        let t = choose|t: Token| #[trigger] active_tokens(remote, x).contains(t);
        assert(active_tokens(v, x).contains(t));
    }
    assert(or_elements(remote).subset_of(or_elements(local)));
    if tokens_distinct(v.0) {
        assert forall|x: Seq<u8>| #[trigger] or_elements(local).contains(x) implies or_elements(remote).contains(x) by {
            assert(x != e && or_present(v, x));
            let t = choose|t: Token| #[trigger] active_tokens(v, x).contains(t);
            assert(tokens_in(v.0, x).contains(t));
            if ts.contains(t) {
                assert(v.0.contains_key(e));
                assert(tokens_in(v.0, e).contains(t));
            }
            assert(active_tokens(remote, x).contains(t));
            assert(or_present(remote, x));
        }
        assert(or_elements(remote) =~= or_elements(local));
    }
    assert(ors.insert(name, remote)[name] == remote);
}

} // verus!
