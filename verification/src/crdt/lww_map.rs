//! Last-Write-Wins map.

use vstd::prelude::*;
use crate::crdt::types::{Timestamp, ts_lt};
use crate::text::{str_eq, copy_bytes, copy_string};

verus! {

/// One key of an LWW-Map with the timestamp of its last write: the value
/// written, or `None` where the last write was a remove (a tombstone, kept
/// so that a merge cannot bring back an older value).
#[derive(Debug, Clone)]
pub struct LwwEntry {
    pub key: String,
    pub value: Option<Vec<u8>>,
    pub timestamp: Timestamp,
}

/// What an LWW-Map holds: for each key written, the last write's value
/// (`None` for a remove) and its timestamp.
pub type LwwState = Map<Seq<char>, (Option<Seq<u8>>, Timestamp)>;

/// The bytes of an optional value.
pub open spec fn opt_bytes(o: Option<Vec<u8>>) -> Option<Seq<u8>> {
    match o {
        Some(v) => Some(v@),
        None => None,
    }
}

/// The keys of a list of entries, in order.
pub open spec fn entry_keys(s: Seq<LwwEntry>) -> Seq<Seq<char>> {
    s.map_values(|e: LwwEntry| e.key@)
}

/// The state that a list of entries with distinct keys stands for.
pub open spec fn entries_view(s: Seq<LwwEntry>) -> LwwState {
    Map::new(
        |k: Seq<char>| entry_keys(s).contains(k),
        |k: Seq<char>|
            (opt_bytes(s[entry_keys(s).index_of(k)].value), s[entry_keys(s).index_of(k)].timestamp),
    )
}

/// The keys present and their values: those whose last write set a value.
pub open spec fn lww_live(m: LwwState) -> Map<Seq<char>, Seq<u8>> {
    Map::new(|k: Seq<char>| m.contains_key(k) && m[k].0 is Some, |k: Seq<char>| m[k].0->0)
}

/// A write of `v` (`None` for a remove) under `k` at time `ts`: ignored
/// when the stored write is newer.
pub open spec fn lww_write(m: LwwState, k: Seq<char>, v: Option<Seq<u8>>, ts: Timestamp) -> LwwState {
    if m.contains_key(k) && ts_lt(ts, m[k].1) {
        m
    } else {
        m.insert(k, (v, ts))
    }
}

/// Writing `v` under `k` at time `ts`: ignored when the stored write is newer.
pub open spec fn lww_set(m: LwwState, k: Seq<char>, v: Seq<u8>, ts: Timestamp) -> LwwState {
    lww_write(m, k, Some(v), ts)
}

/// Removing `k` at time `ts`: a tombstone replaces the stored write, unless
/// that write is newer.
pub open spec fn lww_remove(m: LwwState, k: Seq<char>, ts: Timestamp) -> LwwState {
    lww_write(m, k, None, ts)
}

/// Of a stored write `a` and an incoming write `b`, the one that survives:
/// `a` when it is strictly newer, else `b`.
pub open spec fn lww_pick(
    a: (Option<Seq<u8>>, Timestamp),
    b: (Option<Seq<u8>>, Timestamp),
) -> (Option<Seq<u8>>, Timestamp) {
    if ts_lt(b.1, a.1) {
        a
    } else {
        b
    }
}

/// The state after merging the writes (and removes) of `b` into `a`.
pub open spec fn lww_join(a: LwwState, b: LwwState) -> LwwState {
    Map::new(
        |k: Seq<char>| a.contains_key(k) || b.contains_key(k),
        |k: Seq<char>|
            if !b.contains_key(k) {
                a[k]
            } else if !a.contains_key(k) {
                b[k]
            } else {
                lww_pick(a[k], b[k])
            },
    )
}

/// Two replicas never hold different writes under the same key with the
/// same timestamp.
pub open spec fn lww_tie_free(a: LwwState, b: LwwState) -> bool {
    forall|k: Seq<char>|
        a.contains_key(k) && b.contains_key(k) && #[trigger] a[k].1 == #[trigger] b[k].1 ==> a[k]
            == b[k]
}

/// The keys of the entries that hold a value, in order.
pub open spec fn live_keys(s: Seq<LwwEntry>) -> Seq<Seq<char>>
    decreases s.len(),
{
    if s.len() == 0 {
        Seq::empty()
    } else if s.last().value is Some {
        live_keys(s.drop_last()).push(s.last().key@)
    } else {
        live_keys(s.drop_last())
    }
}

proof fn lemma_index(s: Seq<LwwEntry>, j: int)
    requires
        entry_keys(s).no_duplicates(),
        0 <= j < s.len(),
    ensures
        entries_view(s).contains_key(s[j].key@),
        entries_view(s)[s[j].key@] == (opt_bytes(s[j].value), s[j].timestamp),
        entry_keys(s).index_of(s[j].key@) == j,
{
    let ks = entry_keys(s);
    assert(ks[j] == s[j].key@);
    assert(ks.contains(s[j].key@));
    let i = ks.index_of(s[j].key@);
    assert(0 <= i < ks.len() && ks[i] == s[j].key@);
}

proof fn lemma_push(s: Seq<LwwEntry>, e: LwwEntry)
    requires
        entry_keys(s).no_duplicates(),
        !entry_keys(s).contains(e.key@),
    ensures
        entry_keys(s.push(e)) == entry_keys(s).push(e.key@),
        entry_keys(s.push(e)).no_duplicates(),
        entries_view(s.push(e)) == entries_view(s).insert(e.key@, (opt_bytes(e.value), e.timestamp)),
{
    let t = s.push(e);
    assert(entry_keys(t) =~= entry_keys(s).push(e.key@));
    let kt = entry_keys(t);
    assert(kt.no_duplicates()) by {
        assert forall|i: int, j: int| 0 <= i < kt.len() && 0 <= j < kt.len() && i != j implies kt[i]
            != kt[j] by {
            if i < s.len() && j < s.len() {
                assert(kt[i] == entry_keys(s)[i]);
                assert(kt[j] == entry_keys(s)[j]);
            } else if i < s.len() {
                assert(kt[i] == entry_keys(s)[i]);
            } else if j < s.len() {
                assert(kt[j] == entry_keys(s)[j]);
            }
        }
    }
    let lhs = entries_view(t);
    let rhs = entries_view(s).insert(e.key@, (opt_bytes(e.value), e.timestamp));
    assert forall|k: Seq<char>| #[trigger] lhs.contains_key(k) <==> rhs.contains_key(k) by {
        if entry_keys(s).contains(k) {
            let i = choose|i: int| 0 <= i < s.len() && entry_keys(s)[i] == k;
            assert(kt[i] == k);
        }
        if kt.contains(k) && k != e.key@ {
            let i = choose|i: int| 0 <= i < kt.len() && kt[i] == k;
            assert(i < s.len());
            assert(entry_keys(s)[i] == k);
        }
        if k == e.key@ {
            assert(kt[s.len() as int] == k);
        }
    }
    assert forall|k: Seq<char>| lhs.contains_key(k) implies #[trigger] lhs[k] == rhs[k] by {
        if k == e.key@ {
            lemma_index(t, s.len() as int);
        } else {
            let i = choose|i: int| 0 <= i < kt.len() && kt[i] == k;
            assert(i < s.len());
            lemma_index(t, i);
            lemma_index(s, i);
        }
    }
    assert(lhs =~= rhs);
}

proof fn lemma_update(s: Seq<LwwEntry>, j: int, e: LwwEntry)
    requires
        entry_keys(s).no_duplicates(),
        0 <= j < s.len(),
        e.key@ == s[j].key@,
    ensures
        entry_keys(s.update(j, e)) == entry_keys(s),
        entries_view(s.update(j, e)) == entries_view(s).insert(e.key@, (opt_bytes(e.value), e.timestamp)),
{
    let t = s.update(j, e);
    assert(entry_keys(t) =~= entry_keys(s));
    let ks = entry_keys(s);
    let lhs = entries_view(t);
    let rhs = entries_view(s).insert(e.key@, (opt_bytes(e.value), e.timestamp));
    lemma_index(s, j);
    assert forall|k: Seq<char>| #[trigger] lhs.contains_key(k) <==> rhs.contains_key(k) by {
    }
    assert forall|k: Seq<char>| lhs.contains_key(k) implies #[trigger] lhs[k] == rhs[k] by {
        let i = choose|i: int| 0 <= i < ks.len() && ks[i] == k;
        lemma_index(t, i);
        lemma_index(s, i);
    }
    assert(lhs =~= rhs);
}

proof fn lemma_empty(s: Seq<LwwEntry>)
    requires
        s.len() == 0,
    ensures
        entries_view(s) == LwwState::empty(),
{
    assert(entries_view(s) =~= LwwState::empty());
}

proof fn lemma_dom(s: Seq<LwwEntry>)
    requires
        entry_keys(s).no_duplicates(),
    ensures
        entries_view(s).dom() == entry_keys(s).to_set(),
        entries_view(s).dom().finite(),
        entries_view(s).len() == s.len(),
{
    assert(entries_view(s).dom() =~= entry_keys(s).to_set());
    entry_keys(s).unique_seq_to_set();
}

proof fn lemma_live_keys_in(s: Seq<LwwEntry>, k: Seq<char>)
    requires
        live_keys(s).contains(k),
    ensures
        entry_keys(s).contains(k),
    decreases s.len(),
{
    let t = s.drop_last();
    if s.last().value is Some && k == s.last().key@ {
        assert(entry_keys(s)[s.len() - 1] == k);
    } else {
        if s.last().value is Some {
            let j = choose|j: int| 0 <= j < live_keys(s).len() && live_keys(s)[j] == k;
            assert(live_keys(t)[j] == k);
        }
        lemma_live_keys_in(t, k);
        let j = choose|j: int| 0 <= j < entry_keys(t).len() && entry_keys(t)[j] == k;
        assert(entry_keys(s)[j] == k);
    }
}

/// The present keys of a list of entries with distinct keys are those of
/// `live_keys`, each once; their number is the length of `live_keys`.
proof fn lemma_live(s: Seq<LwwEntry>)
    requires
        entry_keys(s).no_duplicates(),
    ensures
        live_keys(s).no_duplicates(),
        live_keys(s).to_set() == lww_live(entries_view(s)).dom(),
        lww_live(entries_view(s)).dom().finite(),
        lww_live(entries_view(s)).len() == live_keys(s).len(),
    decreases s.len(),
{
    if s.len() == 0 {
        lemma_empty(s);
        assert(live_keys(s).to_set() =~= lww_live(entries_view(s)).dom());
    } else {
        let t = s.drop_last();
        let e = s.last();
        assert(s =~= t.push(e));
        assert(entry_keys(t) =~= entry_keys(s).drop_last());
        assert(entry_keys(t).no_duplicates()) by {
            assert forall|a: int, b: int| 0 <= a < b < entry_keys(t).len() implies entry_keys(t)[a]
                != entry_keys(t)[b] by {
                assert(entry_keys(t)[a] == entry_keys(s)[a] && entry_keys(t)[b] == entry_keys(s)[b]);
            }
        }
        assert(!entry_keys(t).contains(e.key@)) by {
            if entry_keys(t).contains(e.key@) {
                let j = choose|j: int| 0 <= j < entry_keys(t).len() && entry_keys(t)[j] == e.key@;
                assert(entry_keys(s)[j] == entry_keys(s)[s.len() - 1]);
            }
        }
        lemma_live(t);
        lemma_push(t, e);
        let lt = lww_live(entries_view(t));
        let ls = lww_live(entries_view(s));
        assert(!live_keys(t).contains(e.key@)) by {
            if live_keys(t).contains(e.key@) {
                lemma_live_keys_in(t, e.key@);
            }
        }
        assert(!lt.dom().contains(e.key@));
        if e.value is Some {
            assert(ls =~= lt.insert(e.key@, e.value->0@));
            assert(live_keys(s) == live_keys(t).push(e.key@));
            assert(live_keys(s).no_duplicates()) by {
                assert forall|a: int, b: int| 0 <= a < b < live_keys(s).len() implies live_keys(s)[a]
                    != live_keys(s)[b] by {
                    if b == live_keys(t).len() {
                        assert(live_keys(s)[a] == live_keys(t)[a]);
                        assert(live_keys(t).contains(live_keys(t)[a]));
                    } else {
                        assert(live_keys(s)[a] == live_keys(t)[a] && live_keys(s)[b] == live_keys(t)[b]);
                    }
                }
            }
            live_keys(t).lemma_push_to_set_commute(e.key@);
            assert(live_keys(s).to_set() =~= ls.dom());
        } else {
            assert(ls =~= lt);
            assert(live_keys(s) == live_keys(t));
        }
    }
    live_keys(s).unique_seq_to_set();
    assert(lww_live(entries_view(s)).dom() == live_keys(s).to_set());
}

/// Last-Write-Wins map: each key holds a value and the timestamp of its
/// write; of two writes to one key, removes included, the newer one wins.
#[derive(Debug, Clone)]
pub struct LwwMap {
    entries: Vec<LwwEntry>,
    node_id: u64,
}

impl View for LwwMap {
    type V = LwwState;

    /// Every key written, with its last write (tombstones included).
    closed spec fn view(&self) -> LwwState {
        entries_view(self.entries@)
    }
}

impl LwwMap {
    /// An independent replica with the same contents and node id.
    pub fn duplicate(&self) -> (r: Self)
        requires
            self.wf(),
        ensures
            r.wf(),
            r@ == self@,
            r.node() == self.node(),
    {
        let mut entries: Vec<LwwEntry> = Vec::new();
        let mut i: usize = 0;
        while i < self.entries.len()
            invariant
                0 <= i <= self.entries@.len(),
                entries@.len() == i,
                forall|j: int| 0 <= j < i ==> (#[trigger] entries@[j]).key@ == self.entries@[j].key@
                    && opt_bytes(entries@[j].value) == opt_bytes(self.entries@[j].value)
                    && entries@[j].timestamp == self.entries@[j].timestamp,
            decreases self.entries@.len() - i,
        {
            let e = &self.entries[i];
            let value = match &e.value {
                Some(v) => Some(copy_bytes(v.as_slice())),
                None => None,
            };
            entries.push(LwwEntry { key: copy_string(e.key.as_str()), value, timestamp: e.timestamp });
            i = i + 1;
        }
        let r = LwwMap { entries, node_id: self.node_id };
        proof {
            assert(entry_keys(r.entries@) =~= entry_keys(self.entries@));
            assert(r@ =~= self@);
        }
        r
    }

    /// The internal invariant: no key is stored twice.
    pub closed spec fn wf(&self) -> bool {
        entry_keys(self.entries@).no_duplicates()
    }

    /// The node id of this replica.
    pub closed spec fn node(&self) -> u64 {
        self.node_id
    }

    /// The keys written (tombstones included) and the keys present are
    /// finitely many.
    pub proof fn lemma_finite(&self)
        requires
            self.wf(),
        ensures
            self@.dom().finite(),
            lww_live(self@).dom().finite(),
    {
        lemma_dom(self.entries@);
        lemma_live(self.entries@);
    }

    /// Create an empty map for replica `node_id`.
    pub fn new(node_id: u64) -> (r: Self)
        ensures
            r.wf(),
            r@ == LwwState::empty(),
            r.node() == node_id,
    {
        let r = LwwMap { entries: Vec::new(), node_id };
        proof {
            lemma_empty(r.entries@);
        }
        r
    }

    fn find(&self, key: &str) -> (r: Option<usize>)
        requires
            self.wf(),
        ensures
            match r {
                Some(i) => i < self.entries@.len() && self.entries@[i as int].key@ == key@,
                None => !self@.contains_key(key@),
            },
    {
        let mut i: usize = 0;
        while i < self.entries.len()
            invariant
                0 <= i <= self.entries@.len(),
                forall|j: int| 0 <= j < i ==> self.entries@[j].key@ != key@,
            decreases self.entries@.len() - i,
        {
            if str_eq(self.entries[i].key.as_str(), key) {
                return Some(i);
            }
            i = i + 1;
        }
        proof {
            if self@.contains_key(key@) {
                let ks = entry_keys(self.entries@);
                let j = choose|j: int| 0 <= j < ks.len() && ks[j] == key@;
                assert(self.entries@[j].key@ == key@);
            }
        }
        None
    }

    fn write(&mut self, key: String, value: Option<Vec<u8>>, timestamp: Timestamp)
        requires
            old(self).wf(),
        ensures
            final(self).wf(),
            final(self).node() == old(self).node(),
            final(self)@ == lww_write(old(self)@, key@, opt_bytes(value), timestamp),
    {
        match self.find(key.as_str()) {
            Some(i) => {
                proof {
                    lemma_index(self.entries@, i as int);
                }
                if timestamp.less_than(&self.entries[i].timestamp) {
                    return;
                }
                let e = LwwEntry { key, value, timestamp };
                proof {
                    lemma_update(self.entries@, i as int, e);
                }
                self.entries.set(i, e);
            },
            None => {
                let e = LwwEntry { key, value, timestamp };
                proof {
                    lemma_push(self.entries@, e);
                }
                self.entries.push(e);
            },
        }
    }

    /// Set `key` to `value` with the current time of this replica.
    pub fn set(&mut self, key: String, value: Vec<u8>)
        requires
            old(self).wf(),
        ensures
            final(self).wf(),
            final(self).node() == old(self).node(),
            exists|ts: Timestamp|
                ts.node_id == old(self).node() && final(self)@ == lww_set(
                    old(self)@,
                    key@,
                    value@,
                    ts,
                ),
    {
        let timestamp = Timestamp::now(self.node_id);
        self.set_with_timestamp(key, value, timestamp);
    }

    /// Set `key` to `value` written at `timestamp`; a stored write (or
    /// remove) that is strictly newer is kept.
    pub fn set_with_timestamp(&mut self, key: String, value: Vec<u8>, timestamp: Timestamp)
        requires
            old(self).wf(),
        ensures
            final(self).wf(),
            final(self).node() == old(self).node(),
            final(self)@ == lww_set(old(self)@, key@, value@, timestamp),
    {
        self.write(key, Some(value), timestamp);
    }

    /// The value present under `key`.
    pub fn get(&self, key: &str) -> (r: Option<&[u8]>)
        requires
            self.wf(),
        ensures
            match r {
                Some(v) => lww_live(self@).contains_key(key@) && v@ == lww_live(self@)[key@],
                None => !lww_live(self@).contains_key(key@),
            },
    {
        match self.find(key) {
            Some(i) => {
                proof {
                    lemma_index(self.entries@, i as int);
                }
                match &self.entries[i].value {
                    Some(v) => Some(v.as_slice()),
                    None => None,
                }
            },
            None => None,
        }
    }

    /// The value present under `key` with the timestamp of its write.
    pub fn get_with_timestamp(&self, key: &str) -> (r: Option<(&[u8], Timestamp)>)
        requires
            self.wf(),
        ensures
            match r {
                Some(p) => lww_live(self@).contains_key(key@) && p.0@ == lww_live(self@)[key@] && p.1
                    == self@[key@].1,
                None => !lww_live(self@).contains_key(key@),
            },
    {
        match self.find(key) {
            Some(i) => {
                proof {
                    lemma_index(self.entries@, i as int);
                }
                match &self.entries[i].value {
                    Some(v) => Some((v.as_slice(), self.entries[i].timestamp)),
                    None => None,
                }
            },
            None => None,
        }
    }

    /// Remove `key` with the current time of this replica.
    pub fn remove(&mut self, key: &str)
        requires
            old(self).wf(),
        ensures
            final(self).wf(),
            final(self).node() == old(self).node(),
            exists|ts: Timestamp|
                ts.node_id == old(self).node() && final(self)@ == lww_remove(old(self)@, key@, ts),
    {
        let timestamp = Timestamp::now(self.node_id);
        self.remove_with_timestamp(key, timestamp);
    }

    /// Remove `key` at `timestamp`, leaving a tombstone with that timestamp;
    /// a stored write that is strictly newer is kept.
    pub fn remove_with_timestamp(&mut self, key: &str, timestamp: Timestamp)
        requires
            old(self).wf(),
        ensures
            final(self).wf(),
            final(self).node() == old(self).node(),
            final(self)@ == lww_remove(old(self)@, key@, timestamp),
    {
        self.write(copy_string(key), None, timestamp);
    }

    /// Whether a value is present under `key`.
    pub fn contains_key(&self, key: &str) -> (r: bool)
        requires
            self.wf(),
        ensures
            r == lww_live(self@).contains_key(key@),
    {
        match self.find(key) {
            Some(i) => {
                proof {
                    lemma_index(self.entries@, i as int);
                }
                self.entries[i].value.is_some()
            },
            None => false,
        }
    }

    /// The number of keys present.
    pub fn len(&self) -> (r: usize)
        requires
            self.wf(),
        ensures
            r == lww_live(self@).len(),
            lww_live(self@).dom().finite(),
    {
        let mut n: usize = 0;
        let mut i: usize = 0;
        while i < self.entries.len()
            invariant
                0 <= i <= self.entries@.len(),
                n == live_keys(self.entries@.take(i as int)).len(),
                n <= i,
            decreases self.entries@.len() - i,
        {
            proof {
                assert(self.entries@.take(i + 1).drop_last() =~= self.entries@.take(i as int));
                assert(self.entries@.take(i + 1).last() == self.entries@[i as int]);
            }
            if self.entries[i].value.is_some() {
                n = n + 1;
            }
            i = i + 1;
        }
        proof {
            assert(self.entries@.take(i as int) =~= self.entries@);
            lemma_live(self.entries@);
        }
        n
    }

    /// Whether no key is present.
    pub fn is_empty(&self) -> (r: bool)
        requires
            self.wf(),
        ensures
            r == (lww_live(self@).len() == 0),
            lww_live(self@).dom().finite(),
    {
        self.len() == 0
    }

    /// All keys present, each once.
    pub fn keys(&self) -> (r: Vec<String>)
        requires
            self.wf(),
        ensures
            r@.map_values(|s: String| s@).no_duplicates(),
            r@.map_values(|s: String| s@).to_set() == lww_live(self@).dom(),
    {
        let mut r: Vec<String> = Vec::new();
        let mut i: usize = 0;
        while i < self.entries.len()
            invariant
                self.wf(),
                0 <= i <= self.entries@.len(),
                r@.map_values(|s: String| s@) == live_keys(self.entries@.take(i as int)),
            decreases self.entries@.len() - i,
        {
            proof {
                assert(self.entries@.take(i + 1).drop_last() =~= self.entries@.take(i as int));
                assert(self.entries@.take(i + 1).last() == self.entries@[i as int]);
            }
            if self.entries[i].value.is_some() {
                let k = copy_string(self.entries[i].key.as_str());
                let ghost old_r = r@;
                r.push(k);
                proof {
                    assert(r@.map_values(|s: String| s@) =~= old_r.map_values(|s: String| s@).push(k@));
                }
            }
            i = i + 1;
        }
        proof {
            assert(self.entries@.take(i as int) =~= self.entries@);
            lemma_live(self.entries@);
        }
        r
    }

    /// Merge another replica into this one: for each key the newer write
    /// wins, a remove as much as a set.
    pub fn merge(&mut self, other: &LwwMap)
        requires
            old(self).wf(),
            other.wf(),
        ensures
            final(self).wf(),
            final(self).node() == old(self).node(),
            final(self)@ == lww_join(old(self)@, other@),
    {
        let ghost start = self@;
        let mut i: usize = 0;
        proof {
            lemma_empty(other.entries@.take(0));
            assert(lww_join(start, Map::empty()) =~= start);
        }
        while i < other.entries.len()
            invariant
                self.wf(),
                other.wf(),
                self.node() == old(self).node(),
                start == old(self)@,
                0 <= i <= other.entries@.len(),
                entry_keys(other.entries@.take(i as int)).no_duplicates(),
                self@ == lww_join(start, entries_view(other.entries@.take(i as int))),
            decreases other.entries@.len() - i,
        {
            let e = &other.entries[i];
            let ghost pre = entries_view(other.entries@.take(i as int));
            proof {
                let s = other.entries@.take(i as int);
                let ko = entry_keys(other.entries@);
                assert(other.entries@.take(i + 1) =~= s.push(other.entries@[i as int]));
                assert(!entry_keys(s).contains(e.key@)) by {
                    if entry_keys(s).contains(e.key@) {
                        let j = choose|j: int| 0 <= j < s.len() && entry_keys(s)[j] == e.key@;
                        assert(ko[j] == ko[i as int]);
                    }
                }
                assert(entry_keys(s).no_duplicates());
                lemma_push(s, *e);
                let post = pre.insert(e.key@, (opt_bytes(e.value), e.timestamp));
                assert(lww_join(start, post) =~= lww_write(
                    lww_join(start, pre),
                    e.key@,
                    opt_bytes(e.value),
                    e.timestamp,
                ));
            }
            let k = copy_string(e.key.as_str());
            let v = match &e.value {
                Some(b) => Some(copy_bytes(b.as_slice())),
                None => None,
            };
            self.write(k, v, e.timestamp);
            i = i + 1;
        }
        proof {
            assert(other.entries@.take(i as int) =~= other.entries@);
        }
    }

    /// The stored entries, tombstones included.
    pub fn entries(&self) -> (r: &Vec<LwwEntry>)
        requires
            self.wf(),
        ensures
            entry_keys(r@).no_duplicates(),
            entries_view(r@) == self@,
    {
        &self.entries
    }

    /// Forget every key and tombstone.
    pub fn clear(&mut self)
        requires
            old(self).wf(),
        ensures
            final(self).wf(),
            final(self).node() == old(self).node(),
            final(self)@ == LwwState::empty(),
    {
        self.entries.clear();
        proof {
            lemma_empty(self.entries@);
        }
    }
}

/// Merging is commutative: two replicas that merge each other's state reach the
/// same map, provided they never hold different values for one key under the
/// same timestamp.
pub proof fn lemma_merge_commutes(a: LwwMap, b: LwwMap)
    requires
        a.wf(),
        b.wf(),
        lww_tie_free(a@, b@),
    ensures
        lww_join(a@, b@) == lww_join(b@, a@),
{
    let l = lww_join(a@, b@);
    let r = lww_join(b@, a@);
    assert forall|k: Seq<char>| l.contains_key(k) implies #[trigger] l[k] == r[k] by {
        if a@.contains_key(k) && b@.contains_key(k) {
            let x = a@[k];
            let y = b@[k];
            if !ts_lt(y.1, x.1) && !ts_lt(x.1, y.1) {
                assert(x.1 == y.1);
            }
        }
    }
    assert(l =~= r);
}

/// Merging is associative: the order in which three replicas are folded
/// together does not change the result.
pub proof fn lemma_merge_associates(a: LwwMap, b: LwwMap, c: LwwMap)
    requires
        a.wf(),
        b.wf(),
        c.wf(),
    ensures
        lww_join(lww_join(a@, b@), c@) == lww_join(a@, lww_join(b@, c@)),
{
    let l = lww_join(lww_join(a@, b@), c@);
    let r = lww_join(a@, lww_join(b@, c@));
    assert(l =~= r);
}

/// Merging a replica with itself changes nothing.
pub proof fn lemma_merge_idempotent(a: LwwMap)
    requires
        a.wf(),
    ensures
        lww_join(a@, a@) == a@,
{
    assert(lww_join(a@, a@) =~= a@);
}

/// A write is visible until a strictly newer write or remove of the same key
/// arrives: reading the key after `set_with_timestamp` gives the written value
/// whenever no stored write was newer.
pub proof fn lemma_read_your_write(a: LwwMap, k: Seq<char>, v: Seq<u8>, ts: Timestamp)
    requires
        a.wf(),
        !(a@.contains_key(k) && ts_lt(ts, a@[k].1)),
    ensures
        lww_live(lww_set(a@, k, v, ts)).contains_key(k),
        lww_live(lww_set(a@, k, v, ts))[k] == v,
{
}

/// Removing a key at a timestamp no older than its last write makes it absent.
pub proof fn lemma_remove_then_absent(a: LwwMap, k: Seq<char>, ts: Timestamp)
    requires
        a.wf(),
        !(a@.contains_key(k) && ts_lt(ts, a@[k].1)),
    ensures
        !lww_live(lww_remove(a@, k, ts)).contains_key(k),
{
}

/// A remove survives a merge: once `k` is removed at `ts`, merging in a
/// replica whose last write of `k` is older leaves `k` absent, whichever
/// side merges into which.
pub proof fn lemma_remove_survives_merge(a: LwwMap, b: LwwMap, k: Seq<char>, ts: Timestamp)
    requires
        a.wf(),
        b.wf(),
        !(a@.contains_key(k) && ts_lt(ts, a@[k].1)),
        b@.contains_key(k) ==> ts_lt(b@[k].1, ts),
    ensures
        !lww_live(lww_join(lww_remove(a@, k, ts), b@)).contains_key(k),
        !lww_live(lww_join(b@, lww_remove(a@, k, ts))).contains_key(k),
{
}

} // verus!
