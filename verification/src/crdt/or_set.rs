//! Observed-Remove set.

use vstd::prelude::*;
use crate::crdt::types::{Timestamp, Token};
use crate::text::{bytes_eq, copy_bytes};

verus! {

broadcast use vstd::seq_lib::group_seq_properties;

/// One element of an OR-Set with the tokens recorded for it.
#[derive(Debug, Clone)]
pub struct OrEntry {
    pub element: Vec<u8>,
    pub tokens: Vec<Token>,
}

/// A token map from element to set of tokens.
pub type TokenMap = Map<Seq<u8>, Set<Token>>;

/// The contents of a list of byte vectors.
pub open spec fn byte_views(s: Seq<Vec<u8>>) -> Seq<Seq<u8>> {
    s.map_values(|v: Vec<u8>| v@)
}

/// The elements of a list of entries, in order.
pub open spec fn or_keys(s: Seq<OrEntry>) -> Seq<Seq<u8>> {
    s.map_values(|e: OrEntry| e.element@)
}

/// No element is listed twice and no token twice for one element.
pub open spec fn or_entries_wf(s: Seq<OrEntry>) -> bool {
    &&& or_keys(s).no_duplicates()
    &&& forall|i: int| 0 <= i < s.len() ==> (#[trigger] s[i]).tokens@.no_duplicates()
}

/// The token map that a list of entries stands for.
pub open spec fn or_view(s: Seq<OrEntry>) -> TokenMap {
    Map::new(
        |k: Seq<u8>| or_keys(s).contains(k),
        |k: Seq<u8>| s[or_keys(s).index_of(k)].tokens@.to_set(),
    )
}

/// The tokens recorded for `e`, empty when `e` is absent.
pub open spec fn tokens_in(m: TokenMap, e: Seq<u8>) -> Set<Token> {
    if m.contains_key(e) {
        m[e]
    } else {
        Set::empty()
    }
}

/// Record the tokens `ts` for `e`.
pub open spec fn add_tokens(m: TokenMap, e: Seq<u8>, ts: Set<Token>) -> TokenMap {
    m.insert(e, tokens_in(m, e).union(ts))
}

/// Pointwise union of two token maps.
pub open spec fn token_union(a: TokenMap, b: TokenMap) -> TokenMap {
    Map::new(
        |k: Seq<u8>| a.contains_key(k) || b.contains_key(k),
        |k: Seq<u8>| tokens_in(a, k).union(tokens_in(b, k)),
    )
}

/// The add tokens of `e` in state `(added, removed)` that were not removed.
pub open spec fn active_tokens(v: (TokenMap, TokenMap), e: Seq<u8>) -> Set<Token> {
    tokens_in(v.0, e).difference(tokens_in(v.1, e))
}

/// `e` is in the set: some add token of it was not removed.
pub open spec fn or_present(v: (TokenMap, TokenMap), e: Seq<u8>) -> bool {
    exists|t: Token| #[trigger] active_tokens(v, e).contains(t)
}

/// The elements of state `v`.
pub open spec fn or_elements(v: (TokenMap, TokenMap)) -> Set<Seq<u8>> {
    v.0.dom().filter(|e: Seq<u8>| or_present(v, e))
}

/// Every element recorded in `m` has at least one token.
pub open spec fn tokens_nonempty(m: TokenMap) -> bool {
    forall|e: Seq<u8>| #[trigger] m.contains_key(e) ==> exists|t: Token| m[e].contains(t)
}

proof fn lemma_add_nonempty(m: TokenMap, e: Seq<u8>, ts: Set<Token>, t: Token)
    requires
        tokens_nonempty(m),
        ts.contains(t),
    ensures
        tokens_nonempty(add_tokens(m, e, ts)),
{
    let n = add_tokens(m, e, ts);
    assert forall|k: Seq<u8>| #[trigger] n.contains_key(k) implies exists|u: Token| n[k].contains(u) by {
        if k == e {
            assert(n[k].contains(t));
        } else {
            let u = choose|u: Token| m[k].contains(u);
            assert(n[k].contains(u));
        }
    }
}

proof fn lemma_union_nonempty(a: TokenMap, b: TokenMap)
    requires
        tokens_nonempty(a),
        tokens_nonempty(b),
    ensures
        tokens_nonempty(token_union(a, b)),
{
    let n = token_union(a, b);
    assert forall|k: Seq<u8>| #[trigger] n.contains_key(k) implies exists|u: Token| n[k].contains(u) by {
        if a.contains_key(k) {
            let u = choose|u: Token| a[k].contains(u);
            assert(n[k].contains(u));
        } else {
            let u = choose|u: Token| b[k].contains(u);
            assert(n[k].contains(u));
        }
    }
}

/// The state after merging `b` into `a`: union of all add and remove tokens.
pub open spec fn or_join(a: (TokenMap, TokenMap), b: (TokenMap, TokenMap)) -> (TokenMap, TokenMap) {
    (token_union(a.0, b.0), token_union(a.1, b.1))
}

proof fn lemma_index(s: Seq<OrEntry>, j: int)
    requires
        or_entries_wf(s),
        0 <= j < s.len(),
    ensures
        or_view(s).contains_key(s[j].element@),
        or_view(s)[s[j].element@] == s[j].tokens@.to_set(),
        or_keys(s).index_of(s[j].element@) == j,
{
    let ks = or_keys(s);
    assert(ks[j] == s[j].element@);
    assert(ks.contains(s[j].element@));
    let i = ks.index_of(s[j].element@);
    assert(0 <= i < ks.len() && ks[i] == s[j].element@);
}

proof fn lemma_push(s: Seq<OrEntry>, e: OrEntry)
    requires
        or_entries_wf(s),
        e.tokens@.no_duplicates(),
        !or_keys(s).contains(e.element@),
    ensures
        or_entries_wf(s.push(e)),
        or_view(s.push(e)) == or_view(s).insert(e.element@, e.tokens@.to_set()),
{
    let t = s.push(e);
    let kt = or_keys(t);
    assert(kt =~= or_keys(s).push(e.element@));
    assert(kt.no_duplicates()) by {
        assert forall|i: int, j: int| 0 <= i < kt.len() && 0 <= j < kt.len() && i != j implies kt[i]
            != kt[j] by {
            if i < s.len() {
                assert(kt[i] == or_keys(s)[i]);
            }
            if j < s.len() {
                assert(kt[j] == or_keys(s)[j]);
            }
        }
    }
    assert forall|i: int| 0 <= i < t.len() implies (#[trigger] t[i]).tokens@.no_duplicates() by {
        if i < s.len() {
            assert(t[i] == s[i]);
        }
    }
    let lhs = or_view(t);
    let rhs = or_view(s).insert(e.element@, e.tokens@.to_set());
    assert forall|k: Seq<u8>| #[trigger] lhs.contains_key(k) <==> rhs.contains_key(k) by {
        if or_keys(s).contains(k) {
            let i = choose|i: int| 0 <= i < s.len() && or_keys(s)[i] == k;
            assert(kt[i] == k);
        }
        if kt.contains(k) && k != e.element@ {
            let i = choose|i: int| 0 <= i < kt.len() && kt[i] == k;
            assert(or_keys(s)[i] == k);
        }
        if k == e.element@ {
            assert(kt[s.len() as int] == k);
        }
    }
    assert forall|k: Seq<u8>| lhs.contains_key(k) implies #[trigger] lhs[k] == rhs[k] by {
        if k == e.element@ {
            lemma_index(t, s.len() as int);
        } else {
            let i = choose|i: int| 0 <= i < kt.len() && kt[i] == k;
            lemma_index(t, i);
            lemma_index(s, i);
        }
    }
    assert(lhs =~= rhs);
}

proof fn lemma_update(s: Seq<OrEntry>, j: int, e: OrEntry)
    requires
        or_entries_wf(s),
        0 <= j < s.len(),
        e.element@ == s[j].element@,
        e.tokens@.no_duplicates(),
    ensures
        or_entries_wf(s.update(j, e)),
        or_view(s.update(j, e)) == or_view(s).insert(e.element@, e.tokens@.to_set()),
{
    let t = s.update(j, e);
    assert(or_keys(t) =~= or_keys(s));
    let ks = or_keys(s);
    let lhs = or_view(t);
    let rhs = or_view(s).insert(e.element@, e.tokens@.to_set());
    lemma_index(s, j);
    assert forall|i: int| 0 <= i < t.len() implies (#[trigger] t[i]).tokens@.no_duplicates() by {
        if i != j {
            assert(t[i] == s[i]);
        }
    }
    assert forall|k: Seq<u8>| #[trigger] lhs.contains_key(k) <==> rhs.contains_key(k) by {
    }
    assert forall|k: Seq<u8>| lhs.contains_key(k) implies #[trigger] lhs[k] == rhs[k] by {
        let i = choose|i: int| 0 <= i < ks.len() && ks[i] == k;
        lemma_index(t, i);
        lemma_index(s, i);
    }
    assert(lhs =~= rhs);
}

proof fn lemma_empty(s: Seq<OrEntry>)
    requires
        s.len() == 0,
    ensures
        or_view(s) == Map::<Seq<u8>, Set<Token>>::empty(),
        or_entries_wf(s),
{
    assert(or_view(s) =~= Map::<Seq<u8>, Set<Token>>::empty());
}

proof fn lemma_dom(s: Seq<OrEntry>)
    requires
        or_entries_wf(s),
    ensures
        or_view(s).dom() == or_keys(s).to_set(),
        or_view(s).dom().finite(),
{
    assert(or_view(s).dom() =~= or_keys(s).to_set());
}

proof fn lemma_push_nodup<A>(s: Seq<A>, x: A)
    requires
        s.no_duplicates(),
        !s.contains(x),
    ensures
        s.push(x).no_duplicates(),
{
    let t = s.push(x);
    assert forall|i: int, j: int| 0 <= i < t.len() && 0 <= j < t.len() && i != j implies t[i]
        != t[j] by {
        if i < s.len() && j < s.len() {
        } else if i < s.len() {
            assert(s.contains(t[i]));
        } else if j < s.len() {
            assert(s.contains(t[j]));
        }
    }
}

/// Whether `t` is among `v`.
fn has_token(v: &Vec<Token>, t: Token) -> (r: bool)
    ensures
        r == v@.contains(t),
{
    let mut i: usize = 0;
    while i < v.len()
        invariant
            0 <= i <= v@.len(),
            forall|j: int| 0 <= j < i ==> v@[j] != t,
        decreases v@.len() - i,
    {
        if v[i] == t {
            return true;
        }
        i = i + 1;
    }
    false
}

/// A table from element to the tokens recorded for it.
#[derive(Debug, Clone)]
struct TokenTable {
    entries: Vec<OrEntry>,
}

impl TokenTable {

    fn duplicate(&self) -> (r: Self)
        requires
            self.wf(),
        ensures
            r.wf(),
            r.view() == self.view(),
    {
        let mut entries: Vec<OrEntry> = Vec::new();
        let mut i: usize = 0;
        while i < self.entries.len()
            invariant
                0 <= i <= self.entries@.len(),
                entries@.len() == i,
                forall|j: int| 0 <= j < i ==> (#[trigger] entries@[j]).element@ == self.entries@[j].element@
                    && entries@[j].tokens@ == self.entries@[j].tokens@,
            decreases self.entries@.len() - i,
        {
            let e = &self.entries[i];
            let mut tokens: Vec<Token> = Vec::new();
            let mut k: usize = 0;
            while k < e.tokens.len()
                invariant
                    0 <= k <= e.tokens@.len(),
                    tokens@ == e.tokens@.take(k as int),
                decreases e.tokens@.len() - k,
            {
                tokens.push(e.tokens[k]);
                proof {
                    assert(e.tokens@.take(k + 1) =~= e.tokens@.take(k as int).push(e.tokens@[k as int]));
                }
                k = k + 1;
            }
            proof {
                assert(e.tokens@.take(e.tokens@.len() as int) =~= e.tokens@);
            }
            entries.push(OrEntry { element: copy_bytes(e.element.as_slice()), tokens });
            i = i + 1;
        }
        let r = TokenTable { entries };
        proof {
            assert(or_keys(r.entries@) =~= or_keys(self.entries@));
            assert(r.view() =~= self.view());
        }
        r
    }
    spec fn wf(&self) -> bool {
        or_entries_wf(self.entries@)
    }

    spec fn view(&self) -> TokenMap {
        or_view(self.entries@)
    }

    fn new() -> (r: Self)
        ensures
            r.wf(),
            r.view() == Map::<Seq<u8>, Set<Token>>::empty(),
    {
        let r = TokenTable { entries: Vec::new() };
        proof {
            lemma_empty(r.entries@);
        }
        r
    }

    fn find(&self, element: &[u8]) -> (r: Option<usize>)
        requires
            self.wf(),
        ensures
            match r {
                Some(i) => i < self.entries@.len() && self.entries@[i as int].element@ == element@
                    && self.view().contains_key(element@) && self.view()[element@]
                    == self.entries@[i as int].tokens@.to_set(),
                None => !self.view().contains_key(element@),
            },
    {
        let mut i: usize = 0;
        while i < self.entries.len()
            invariant
                self.wf(),
                0 <= i <= self.entries@.len(),
                forall|j: int| 0 <= j < i ==> self.entries@[j].element@ != element@,
            decreases self.entries@.len() - i,
        {
            if bytes_eq(self.entries[i].element.as_slice(), element) {
                proof {
                    lemma_index(self.entries@, i as int);
                }
                return Some(i);
            }
            i = i + 1;
        }
        proof {
            if self.view().contains_key(element@) {
                let ks = or_keys(self.entries@);
                let j = choose|j: int| 0 <= j < ks.len() && ks[j] == element@;
                assert(self.entries@[j].element@ == element@);
            }
        }
        None
    }

    /// Record all of `tokens` for `element`.
    fn insert_tokens(&mut self, element: &[u8], tokens: &[Token])
        requires
            old(self).wf(),
        ensures
            final(self).wf(),
            final(self).view() == add_tokens(old(self).view(), element@, tokens@.to_set()),
    {
        let ghost m0 = self.view();
        let (mut list, pos): (Vec<Token>, Option<usize>) = match self.find(element) {
            Some(i) => {
                let mut l: Vec<Token> = Vec::new();
                let src = &self.entries[i].tokens;
                let mut j: usize = 0;
                while j < src.len()
                    invariant
                        0 <= j <= src@.len(),
                        l@ == src@.take(j as int),
                    decreases src@.len() - j,
                {
                    l.push(src[j]);
                    j = j + 1;
                }
                assert(src@.take(j as int) =~= src@);
                assert(src@ == self.entries@[i as int].tokens@);
                (l, Some(i))
            },
            None => (Vec::new(), None),
        };
        proof {
            assert(list@.no_duplicates()) by {
                if let Some(i) = pos {
                    assert(self.entries@[i as int].tokens@.no_duplicates());
                }
            }
            assert(list@.to_set() == tokens_in(m0, element@)) by {
                if pos is None {
                    assert(list@.to_set() =~= Set::<Token>::empty());
                }
            }
        }
        let mut k: usize = 0;
        while k < tokens.len()
            invariant
                0 <= k <= tokens@.len(),
                list@.no_duplicates(),
                list@.to_set() == tokens_in(m0, element@).union(tokens@.take(k as int).to_set()),
            decreases tokens@.len() - k,
        {
            let t = tokens[k];
            let ghost before = list@;
            if !has_token(&list, t) {
                list.push(t);
                proof {
                    assert(list@.to_set() == before.to_set().insert(t));
                }
            }
            proof {
                assert(tokens@.take(k + 1) =~= tokens@.take(k as int).push(t));
                assert(tokens@.take(k + 1).to_set() == tokens@.take(k as int).to_set().insert(t));
                assert(list@.to_set() =~= tokens_in(m0, element@).union(
                    tokens@.take(k + 1).to_set(),
                ));
            }
            k = k + 1;
        }
        proof {
            assert(tokens@.take(k as int) =~= tokens@);
        }
        match pos {
            Some(i) => {
                let e = OrEntry { element: copy_bytes(element), tokens: list };
                proof {
                    lemma_update(self.entries@, i as int, e);
                }
                self.entries.set(i, e);
            },
            None => {
                let e = OrEntry { element: copy_bytes(element), tokens: list };
                proof {
                    lemma_push(self.entries@, e);
                }
                self.entries.push(e);
            },
        }
    }

    /// Whether `element` has some token that `other` does not record for it.
    fn has_active(&self, other: &TokenTable, element: &[u8]) -> (r: bool)
        requires
            self.wf(),
            other.wf(),
        ensures
            r == exists|t: Token| #[trigger] active_tokens((self.view(), other.view()), element@).contains(t),
    {
        match self.find(element) {
            None => {
                assert forall|t: Token| !active_tokens((self.view(), other.view()), element@).contains(t) by {
                }
                false
            },
            Some(i) => {
                let adds = &self.entries[i].tokens;
                let rem = other.find(element);
                let mut j: usize = 0;
                while j < adds.len()
                    invariant
                        0 <= j <= adds@.len(),
                        other.wf(),
                        self.wf(),
                        self.view().contains_key(element@),
                        self.view()[element@] == adds@.to_set(),
                        match rem {
                            Some(ri) => ri < other.entries@.len() && other.view()[element@]
                                == other.entries@[ri as int].tokens@.to_set()
                                && other.view().contains_key(element@),
                            None => !other.view().contains_key(element@),
                        },
                        forall|q: int|
                            0 <= q < j ==> tokens_in(other.view(), element@).contains(
                                #[trigger] adds@[q],
                            ),
                    decreases adds@.len() - j,
                {
                    let t = adds[j];
                    let removed = match rem {
                        Some(ri) => has_token(&other.entries[ri].tokens, t),
                        None => false,
                    };
                    if !removed {
                        proof {
                            assert(adds@[j as int] == t);
                            assert(adds@.contains(t));
                            assert(tokens_in(self.view(), element@).contains(t));
                            assert(!tokens_in(other.view(), element@).contains(t));
                            assert(active_tokens((self.view(), other.view()), element@).contains(t));
                        }
                        return true;
                    }
                    proof {
                        assert(adds@[j as int] == t);
                    }
                    j = j + 1;
                }
                proof {
                    assert forall|t: Token|
                        !active_tokens((self.view(), other.view()), element@).contains(t) by {
                        if adds@.contains(t) {
                            let q = choose|q: int| 0 <= q < adds@.len() && adds@[q] == t;
                            assert(tokens_in(other.view(), element@).contains(adds@[q]));
                        }
                    }
                }
                false
            },
        }
    }
}

/// Observed-Remove set: each add is tagged with a unique token; a remove
/// removes the tokens it has observed, so a concurrent add survives.
#[derive(Debug, Clone)]
pub struct OrSet {
    added: TokenTable,
    removed: TokenTable,
    node_id: u64,
    seq_counter: u32,
}

impl View for OrSet {
    type V = (TokenMap, TokenMap);

    closed spec fn view(&self) -> (TokenMap, TokenMap) {
        (self.added.view(), self.removed.view())
    }
}

impl OrSet {

    /// An independent replica with the same contents, node id and counter.
    pub fn duplicate(&self) -> (r: Self)
        requires
            self.wf(),
        ensures
            r.wf(),
            r@ == self@,
            r.node() == self.node(),
            r.next_seq() == self.next_seq(),
    {
        OrSet {
            added: self.added.duplicate(),
            removed: self.removed.duplicate(),
            node_id: self.node_id,
            seq_counter: self.seq_counter,
        }
    }
    /// The internal invariant of the token tables; every element added
    /// has at least one add token.
    pub closed spec fn wf(&self) -> bool {
        self.added.wf() && self.removed.wf() && tokens_nonempty(self.added.view())
    }

    /// Every element added has at least one add token.
    pub proof fn lemma_added_nonempty(&self)
        requires
            self.wf(),
        ensures
            tokens_nonempty(self@.0),
    {
    }

    /// The node id of this replica.
    pub closed spec fn node(&self) -> u64 {
        self.node_id
    }

    /// The sequence number that the next local add uses.
    pub closed spec fn next_seq(&self) -> u32 {
        self.seq_counter
    }

    /// Create an empty set for replica `node_id`.
    pub fn new(node_id: u64) -> (r: Self)
        ensures
            r.wf(),
            r@.0 == Map::<Seq<u8>, Set<Token>>::empty(),
            r@.1 == Map::<Seq<u8>, Set<Token>>::empty(),
            r.node() == node_id,
            r.next_seq() == 0,
    {
        OrSet { added: TokenTable::new(), removed: TokenTable::new(), node_id, seq_counter: 0 }
    }

    /// Add `element` with a fresh token taken from the clock and the sequence
    /// counter; returns that token.
    pub fn add(&mut self, element: Vec<u8>) -> (r: Token)
        requires
            old(self).wf(),
        ensures
            final(self).wf(),
            final(self).node() == old(self).node(),
            r.timestamp.node_id == old(self).node(),
            r.seq == old(self).next_seq(),
            final(self).next_seq() == (if old(self).next_seq() == u32::MAX {
                0
            } else {
                (old(self).next_seq() + 1) as u32
            }),
            final(self)@.0 == add_tokens(old(self)@.0, element@, set![r]),
            final(self)@.1 == old(self)@.1,
    {
        let timestamp = Timestamp::now(self.node_id);
        let token = Token::new(timestamp, self.seq_counter);
        self.seq_counter = self.seq_counter.wrapping_add(1);
        let one = vec![token];
        proof {
            assert(one@.to_set() =~= set![token]) by {
                assert(one@[0] == token);
            }
        }
        proof {
            lemma_add_nonempty(self.added.view(), element@, set![token], token);
        }
        self.added.insert_tokens(element.as_slice(), one.as_slice());
        token
    }

    /// Add `element` under a given token (for syncing).
    pub fn add_with_token(&mut self, element: Vec<u8>, token: Token)
        requires
            old(self).wf(),
        ensures
            final(self).wf(),
            final(self).node() == old(self).node(),
            final(self).next_seq() == old(self).next_seq(),
            final(self)@.0 == add_tokens(old(self)@.0, element@, set![token]),
            final(self)@.1 == old(self)@.1,
    {
        let one = vec![token];
        proof {
            assert(one@.to_set() =~= set![token]) by {
                assert(one@[0] == token);
            }
        }
        proof {
            lemma_add_nonempty(self.added.view(), element@, set![token], token);
        }
        self.added.insert_tokens(element.as_slice(), one.as_slice());
    }

    /// Remove `element`: every add token observed for it becomes removed.
    pub fn remove(&mut self, element: &[u8])
        requires
            old(self).wf(),
        ensures
            final(self).wf(),
            final(self).node() == old(self).node(),
            final(self).next_seq() == old(self).next_seq(),
            final(self)@.0 == old(self)@.0,
            final(self)@.1 == (if old(self)@.0.contains_key(element@) {
                add_tokens(old(self)@.1, element@, old(self)@.0[element@])
            } else {
                old(self)@.1
            }),
    {
        match self.added.find(element) {
            Some(i) => {
                let mut observed: Vec<Token> = Vec::new();
                let src = &self.added.entries[i].tokens;
                let mut j: usize = 0;
                while j < src.len()
                    invariant
                        0 <= j <= src@.len(),
                        observed@ == src@.take(j as int),
                    decreases src@.len() - j,
                {
                    observed.push(src[j]);
                    j = j + 1;
                }
                assert(src@.take(j as int) =~= src@);
                self.removed.insert_tokens(element, observed.as_slice());
            },
            None => {},
        }
    }

    /// Remove the given tokens of `element` (for syncing).
    pub fn remove_tokens(&mut self, element: &[u8], tokens: &[Token])
        requires
            old(self).wf(),
        ensures
            final(self).wf(),
            final(self).node() == old(self).node(),
            final(self).next_seq() == old(self).next_seq(),
            final(self)@.0 == old(self)@.0,
            final(self)@.1 == add_tokens(old(self)@.1, element@, tokens@.to_set()),
    {
        self.removed.insert_tokens(element, tokens);
    }

    /// Whether `element` is in the set.
    pub fn contains(&self, element: &[u8]) -> (r: bool)
        requires
            self.wf(),
        ensures
            r == or_present(self@, element@),
    {
        self.added.has_active(&self.removed, element)
    }

    /// The elements of the set, each once.
    pub fn elements(&self) -> (r: Vec<Vec<u8>>)
        requires
            self.wf(),
        ensures
            byte_views(r@).no_duplicates(),
            byte_views(r@).to_set() == or_elements(self@),
    {
        let mut r: Vec<Vec<u8>> = Vec::new();
        let mut i: usize = 0;
        let ghost ks = or_keys(self.added.entries@);
        while i < self.added.entries.len()
            invariant
                self.wf(),
                ks == or_keys(self.added.entries@),
                0 <= i <= self.added.entries@.len(),
                byte_views(r@).no_duplicates(),
                forall|x: Seq<u8>|
                    #[trigger] byte_views(r@).contains(x) <==> (ks.take(
                        i as int,
                    ).contains(x) && or_present(self@, x)),
            decreases self.added.entries@.len() - i,
        {
            let el = &self.added.entries[i].element;
            proof {
                lemma_index(self.added.entries@, i as int);
                assert(ks[i as int] == el@);
                assert(ks.take(i + 1) =~= ks.take(i as int).push(el@));
            }
            if self.added.has_active(&self.removed, el.as_slice()) {
                let ghost before = r@;
                let c = copy_bytes(el.as_slice());
                r.push(c);
                proof {
                    assert(byte_views(r@) =~= byte_views(before).push(
                        el@,
                    ));
                    assert(!ks.take(i as int).contains(el@)) by {
                        if ks.take(i as int).contains(el@) {
                            let q = choose|q: int| 0 <= q < i && ks.take(i as int)[q] == el@;
                            assert(ks[q] == ks[i as int]);
                        }
                    }
                    assert(!byte_views(before).contains(el@));
                }
            }
            i = i + 1;
        }
        proof {
            assert(ks.take(i as int) =~= ks);
            lemma_dom(self.added.entries@);
            assert(byte_views(r@).to_set() =~= or_elements(self@));
        }
        r
    }

    /// The number of elements.
    pub fn len(&self) -> (r: usize)
        requires
            self.wf(),
        ensures
            or_elements(self@).finite(),
            r == or_elements(self@).len(),
    {
        let els = self.elements();
        proof {
            byte_views(els@).unique_seq_to_set();
        }
        els.len()
    }

    /// Whether the set has no element.
    pub fn is_empty(&self) -> (r: bool)
        requires
            self.wf(),
        ensures
            or_elements(self@).finite(),
            r == (or_elements(self@).len() == 0),
    {
        self.len() == 0
    }

    /// The add tokens of `element` that were not removed; `None` when the
    /// element was never added, or when it has removed tokens and none active.
    pub fn get_tokens(&self, element: &[u8]) -> (r: Option<Vec<Token>>)
        requires
            self.wf(),
        ensures
            match r {
                Some(v) => v@.no_duplicates() && v@.to_set() == active_tokens(self@, element@)
                    && v@.len() > 0,
                None => active_tokens(self@, element@) == Set::<Token>::empty(),
            },
            r is Some <==> or_present(self@, element@),
    {
        match self.added.find(element) {
            None => {
                proof {
                    assert(active_tokens(self@, element@) =~= Set::<Token>::empty());
                }
                None
            },
            Some(i) => {
                let adds = &self.added.entries[i].tokens;
                let rem = self.removed.find(element);
                let mut out: Vec<Token> = Vec::new();
                let mut j: usize = 0;
                let ghost act = active_tokens(self@, element@);
                proof {
                    assert(self.added.entries@[i as int].tokens@.no_duplicates());
                }
                while j < adds.len()
                    invariant
                        0 <= j <= adds@.len(),
                        self.wf(),
                        adds@.no_duplicates(),
                        adds@.to_set() == tokens_in(self@.0, element@),
                        act == active_tokens(self@, element@),
                        match rem {
                            Some(ri) => ri < self.removed.entries@.len()
                                && self.removed.view()[element@]
                                == self.removed.entries@[ri as int].tokens@.to_set()
                                && self.removed.view().contains_key(element@),
                            None => !self.removed.view().contains_key(element@),
                        },
                        out@.no_duplicates(),
                        forall|t: Token|
                            #[trigger] out@.contains(t) <==> (adds@.take(j as int).contains(t)
                                && act.contains(t)),
                    decreases adds@.len() - j,
                {
                    let t = adds[j];
                    let removed = match rem {
                        Some(ri) => has_token(&self.removed.entries[ri].tokens, t),
                        None => false,
                    };
                    proof {
                        assert(adds@.take(j + 1) =~= adds@.take(j as int).push(t));
                        assert(adds@.contains(t));
                        assert(!adds@.take(j as int).contains(t)) by {
                            if adds@.take(j as int).contains(t) {
                                let q = choose|q: int|
                                    0 <= q < j && adds@.take(j as int)[q] == t;
                                assert(adds@[q] == adds@[j as int]);
                            }
                        }
                    }
                    proof {
                        assert(adds@[j as int] == t);
                        assert(tokens_in(self@.0, element@).contains(t));
                        assert(removed == tokens_in(self@.1, element@).contains(t));
                        assert(!out@.contains(t));
                    }
                    if !removed {
                        proof {
                            lemma_push_nodup(out@, t);
                        }
                        out.push(t);
                    }
                    j = j + 1;
                }
                proof {
                    assert(adds@.take(j as int) =~= adds@);
                    assert(out@.to_set() =~= act);
                }
                if rem.is_some() && out.len() == 0 {
                    proof {
                        assert(act =~= Set::<Token>::empty()) by {
                            assert forall|t: Token| !act.contains(t) by {
                                if act.contains(t) {
                                    assert(out@.to_set().contains(t));
                                }
                            }
                        }
                    }
                    None
                } else {
                    proof {
                        if out.len() == 0 {
                            assert(rem is None);
                            assert(self@.0.contains_key(element@));
                            let t = choose|t: Token| self@.0[element@].contains(t);
                            assert(act.contains(t));
                            assert(out@.to_set().contains(t));
                        }
                        assert(out@.len() > 0);
                        assert(out@.to_set().contains(out@[0]));
                        assert(act.contains(out@[0]));
                    }
                    Some(out)
                }
            },
        }
    }

    /// Merge another replica into this one: union of add and remove tokens.
    pub fn merge(&mut self, other: &OrSet)
        requires
            old(self).wf(),
            other.wf(),
        ensures
            final(self).wf(),
            final(self).node() == old(self).node(),
            final(self).next_seq() == old(self).next_seq(),
            final(self)@ == or_join(old(self)@, other@),
    {
        proof {
            lemma_union_nonempty(self.added.view(), other.added.view());
        }
        merge_table(&mut self.added, &other.added);
        merge_table(&mut self.removed, &other.removed);
    }

    /// The elements with all their add tokens.
    pub fn raw_elements(&self) -> (r: &Vec<OrEntry>)
        requires
            self.wf(),
        ensures
            or_entries_wf(r@),
            or_view(r@) == self@.0,
    {
        &self.added.entries
    }

    /// Remove every element and token and reset the sequence counter.
    pub fn clear(&mut self)
        requires
            old(self).wf(),
        ensures
            final(self).wf(),
            final(self).node() == old(self).node(),
            final(self).next_seq() == 0,
            final(self)@.0 == Map::<Seq<u8>, Set<Token>>::empty(),
            final(self)@.1 == Map::<Seq<u8>, Set<Token>>::empty(),
    {
        self.added = TokenTable::new();
        self.removed = TokenTable::new();
        self.seq_counter = 0;
    }
}

fn merge_table(dst: &mut TokenTable, src: &TokenTable)
    requires
        old(dst).wf(),
        src.wf(),
    ensures
        final(dst).wf(),
        final(dst).view() == token_union(old(dst).view(), src.view()),
{
    let ghost start = dst.view();
    let mut i: usize = 0;
    proof {
        lemma_empty(src.entries@.take(0));
        let u = token_union(start, Map::empty());
        assert forall|k: Seq<u8>| u.contains_key(k) implies #[trigger] u[k] == start[k] by {
            assert(u[k] =~= start[k]);
        }
        assert(u =~= start);
    }
    while i < src.entries.len()
        invariant
            dst.wf(),
            src.wf(),
            start == old(dst).view(),
            0 <= i <= src.entries@.len(),
            or_entries_wf(src.entries@.take(i as int)),
            dst.view() == token_union(start, or_view(src.entries@.take(i as int))),
        decreases src.entries@.len() - i,
    {
        let e = &src.entries[i];
        let ghost pre = or_view(src.entries@.take(i as int));
        proof {
            let s = src.entries@.take(i as int);
            let ko = or_keys(src.entries@);
            assert(src.entries@.take(i + 1) =~= s.push(src.entries@[i as int]));
            assert(!or_keys(s).contains(e.element@)) by {
                if or_keys(s).contains(e.element@) {
                    let j = choose|j: int| 0 <= j < s.len() && or_keys(s)[j] == e.element@;
                    assert(ko[j] == ko[i as int]);
                }
            }
            assert(e.tokens@.no_duplicates());
            lemma_push(s, *e);
            let post = pre.insert(e.element@, e.tokens@.to_set());
            assert(!pre.contains_key(e.element@));
            let l = token_union(start, post);
            let r = add_tokens(token_union(start, pre), e.element@, e.tokens@.to_set());
            assert forall|k: Seq<u8>| l.contains_key(k) implies #[trigger] l[k] == r[k] by {
                assert(l[k] =~= r[k]);
            }
            assert(l =~= r);
        }
        dst.insert_tokens(e.element.as_slice(), e.tokens.as_slice());
        i = i + 1;
    }
    proof {
        assert(src.entries@.take(i as int) =~= src.entries@);
    }
}


proof fn lemma_union_comm(a: TokenMap, b: TokenMap)
    ensures
        token_union(a, b) == token_union(b, a),
{
    let l = token_union(a, b);
    let r = token_union(b, a);
    assert forall|k: Seq<u8>| l.contains_key(k) implies #[trigger] l[k] == r[k] by {
        assert(l[k] =~= r[k]);
    }
    assert(l =~= r);
}

proof fn lemma_union_assoc(a: TokenMap, b: TokenMap, c: TokenMap)
    ensures
        token_union(token_union(a, b), c) == token_union(a, token_union(b, c)),
{
    let l = token_union(token_union(a, b), c);
    let r = token_union(a, token_union(b, c));
    assert forall|k: Seq<u8>| l.contains_key(k) implies #[trigger] l[k] == r[k] by {
        assert(l[k] =~= r[k]);
    }
    assert(l =~= r);
}

proof fn lemma_union_idem(a: TokenMap)
    ensures
        token_union(a, a) == a,
{
    let l = token_union(a, a);
    assert forall|k: Seq<u8>| l.contains_key(k) implies #[trigger] l[k] == a[k] by {
        assert(l[k] =~= a[k]);
    }
    assert(l =~= a);
}

/// Merging is commutative: replicas that exchange their states converge.
pub proof fn lemma_or_merge_commutes(a: OrSet, b: OrSet)
    requires
        a.wf(),
        b.wf(),
    ensures
        or_join(a@, b@) == or_join(b@, a@),
        or_elements(or_join(a@, b@)) == or_elements(or_join(b@, a@)),
{
    lemma_union_comm(a@.0, b@.0);
    lemma_union_comm(a@.1, b@.1);
}

/// Merging is associative.
pub proof fn lemma_or_merge_associates(a: OrSet, b: OrSet, c: OrSet)
    requires
        a.wf(),
        b.wf(),
        c.wf(),
    ensures
        or_join(or_join(a@, b@), c@) == or_join(a@, or_join(b@, c@)),
{
    lemma_union_assoc(a@.0, b@.0, c@.0);
    lemma_union_assoc(a@.1, b@.1, c@.1);
}

/// Merging a replica with itself changes nothing.
pub proof fn lemma_or_merge_idempotent(a: OrSet)
    requires
        a.wf(),
    ensures
        or_join(a@, a@) == a@,
{
    lemma_union_idem(a@.0);
    lemma_union_idem(a@.1);
}

/// Add wins over a concurrent remove: an add token of `e` that neither
/// replica has removed keeps `e` in the merged set.
pub proof fn lemma_add_wins(a: OrSet, b: OrSet, e: Seq<u8>, t: Token)
    requires
        a.wf(),
        b.wf(),
        tokens_in(b@.0, e).contains(t),
        !tokens_in(a@.1, e).contains(t),
        !tokens_in(b@.1, e).contains(t),
    ensures
        or_present(or_join(a@, b@), e),
{
    let j = or_join(a@, b@);
    assert(tokens_in(j.0, e).contains(t));
    assert(!tokens_in(j.1, e).contains(t));
    assert(active_tokens(j, e).contains(t));
}

/// A remove hides the element: after removing every observed token of `e`,
/// `e` is no longer in the set.
pub proof fn lemma_remove_hides(a: OrSet, e: Seq<u8>)
    requires
        a.wf(),
    ensures
        !or_present(
            (a@.0, if a@.0.contains_key(e) {
                add_tokens(a@.1, e, a@.0[e])
            } else {
                a@.1
            }),
            e,
        ),
{
}

/// An element that one replica has removed after observing every add token
/// of it stays removed when the other replica, which added nothing new, merges in.
pub proof fn lemma_remove_propagates(a: OrSet, b: OrSet, e: Seq<u8>)
    requires
        a.wf(),
        b.wf(),
        tokens_in(a@.0, e).subset_of(tokens_in(b@.0, e)),
        tokens_in(b@.0, e).subset_of(tokens_in(b@.1, e)),
    ensures
        !or_present(or_join(a@, b@), e),
{
    let j = or_join(a@, b@);
    assert forall|t: Token| !active_tokens(j, e).contains(t) by {
    }
}

/// One local add as `OrSet::add` states it: taken on replica `before`, it
/// returns `t`, and `after` is the replica before the next add. The calls
/// in between (`remove`, `remove_tokens`, `add_with_token`, `merge`) keep
/// the node id and the counter.
pub open spec fn add_step(before: OrSet, t: Token, after: OrSet) -> bool {
    &&& t.timestamp.node_id == before.node()
    &&& t.seq == before.next_seq()
    &&& after.node() == before.node()
    &&& after.next_seq() == (if before.next_seq() == u32::MAX {
        0
    } else {
        (before.next_seq() + 1) as u32
    })
}

/// A run of local adds on one replica: `tokens[k]` is what the k-th add
/// returned, taken on `states[k]`.
pub open spec fn add_run(states: Seq<OrSet>, tokens: Seq<Token>) -> bool {
    &&& states.len() == tokens.len() + 1
    &&& forall|k: int| 0 <= k < tokens.len() ==> add_step(states[k], #[trigger] tokens[k], states[k + 1])
}

proof fn lemma_run_seq(states: Seq<OrSet>, tokens: Seq<Token>, k: int)
    requires
        add_run(states, tokens),
        0 <= k <= tokens.len(),
    ensures
        states[k].next_seq() == (states[0].next_seq() + k) % 0x1_0000_0000,
        states[k].node() == states[0].node(),
    decreases k,
{
    if k > 0 {
        lemma_run_seq(states, tokens, k - 1);
        assert(add_step(states[k - 1], tokens[k - 1], states[k]));
        let a = states[0].next_seq() as int;
        let b = states[k - 1].next_seq() as int;
        assert(b == (a + (k - 1)) % 0x1_0000_0000);
        assert((a + k) % 0x1_0000_0000 == (b + 1) % 0x1_0000_0000) by (nonlinear_arith)
            requires
                b == (a + (k - 1)) % 0x1_0000_0000,
        ;
    }
}

/// The tokens of successive local adds on one replica, fewer than 2^32 of
/// them, all carry its node id and all differ.
pub proof fn lemma_add_tokens_distinct(states: Seq<OrSet>, tokens: Seq<Token>)
    requires
        add_run(states, tokens),
        tokens.len() <= 0x1_0000_0000,
    ensures
        forall|k: int| 0 <= k < tokens.len() ==> (#[trigger] tokens[k]).timestamp.node_id == states[0].node(),
        forall|i: int, j: int| 0 <= i < j < tokens.len() ==> #[trigger] tokens[i] != #[trigger] tokens[j],
{
    assert forall|k: int| 0 <= k < tokens.len() implies (#[trigger] tokens[k]).timestamp.node_id
        == states[0].node() && tokens[k].seq == (states[0].next_seq() + k) % 0x1_0000_0000 by {
        lemma_run_seq(states, tokens, k);
        assert(add_step(states[k], tokens[k], states[k + 1]));
    }
    assert forall|i: int, j: int| 0 <= i < j < tokens.len() implies #[trigger] tokens[i]
        != #[trigger] tokens[j] by {
        let a = states[0].next_seq() as int;
        assert(tokens[i].seq == (a + i) % 0x1_0000_0000);
        assert(tokens[j].seq == (a + j) % 0x1_0000_0000);
        assert((a + i) % 0x1_0000_0000 != (a + j) % 0x1_0000_0000) by (nonlinear_arith)
            requires
                0 <= i < j,
                j - i < 0x1_0000_0000,
                0 <= a,
        ;
    }
}

} // verus!
