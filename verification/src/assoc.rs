//! String-keyed association lists: the maps of the library, kept as vectors
//! of (key, value) pairs with distinct keys.

use vstd::prelude::*;
use crate::text::{str_eq, copy_string};

verus! {

/// The keys of a list of pairs, in order.
pub open spec fn keys_of<V>(s: Seq<(String, V)>) -> Seq<Seq<char>> {
    s.map_values(|p: (String, V)| p.0@)
}

/// The map that a list of pairs with distinct keys stands for.
pub open spec fn assoc_view<V>(s: Seq<(String, V)>) -> Map<Seq<char>, V> {
    Map::new(|k: Seq<char>| keys_of(s).contains(k), |k: Seq<char>| s[keys_of(s).index_of(k)].1)
}

/// The list has no key twice.
pub open spec fn assoc_wf<V>(s: Seq<(String, V)>) -> bool {
    keys_of(s).no_duplicates()
}

pub proof fn lemma_assoc_index<V>(s: Seq<(String, V)>, j: int)
    requires
        assoc_wf(s),
        0 <= j < s.len(),
    ensures
        assoc_view(s).contains_key(s[j].0@),
        assoc_view(s)[s[j].0@] == s[j].1,
{
    let ks = keys_of(s);
    assert(ks[j] == s[j].0@);
    assert(ks.contains(s[j].0@));
    let i = ks.index_of(s[j].0@);
    assert(0 <= i < ks.len() && ks[i] == s[j].0@);
}

pub proof fn lemma_assoc_empty<V>(s: Seq<(String, V)>)
    requires
        s.len() == 0,
    ensures
        assoc_wf(s),
        assoc_view(s) == Map::<Seq<char>, V>::empty(),
{
    assert(assoc_view(s) =~= Map::<Seq<char>, V>::empty());
}

pub proof fn lemma_assoc_push<V>(s: Seq<(String, V)>, k: String, v: V)
    requires
        assoc_wf(s),
        !keys_of(s).contains(k@),
    ensures
        assoc_wf(s.push((k, v))),
        assoc_view(s.push((k, v))) == assoc_view(s).insert(k@, v),
{
    let t = s.push((k, v));
    let kt = keys_of(t);
    assert(kt =~= keys_of(s).push(k@));
    assert(kt.no_duplicates()) by {
        assert forall|i: int, j: int| 0 <= i < kt.len() && 0 <= j < kt.len() && i != j implies kt[i]
            != kt[j] by {
            if i < s.len() {
                assert(kt[i] == keys_of(s)[i]);
            }
            if j < s.len() {
                assert(kt[j] == keys_of(s)[j]);
            }
        }
    }
    let lhs = assoc_view(t);
    let rhs = assoc_view(s).insert(k@, v);
    assert forall|x: Seq<char>| #[trigger] lhs.contains_key(x) <==> rhs.contains_key(x) by {
        if keys_of(s).contains(x) {
            let i = choose|i: int| 0 <= i < s.len() && keys_of(s)[i] == x;
            assert(kt[i] == x);
        }
        if kt.contains(x) && x != k@ {
            let i = choose|i: int| 0 <= i < kt.len() && kt[i] == x;
            assert(keys_of(s)[i] == x);
        }
        if x == k@ {
            assert(kt[s.len() as int] == x);
        }
    }
    assert forall|x: Seq<char>| lhs.contains_key(x) implies #[trigger] lhs[x] == rhs[x] by {
        if x == k@ {
            assert(kt[s.len() as int] == k@);
            assert(t[s.len() as int] == (k, v));
            lemma_assoc_index(t, s.len() as int);
        } else {
            let i = choose|i: int| 0 <= i < kt.len() && kt[i] == x;
            assert(kt[s.len() as int] == k@);
            assert(i < s.len());
            assert(t[i] == s[i]);
            assert(keys_of(s)[i] == x);
            lemma_assoc_index(t, i);
            lemma_assoc_index(s, i);
        }
    }
    assert(lhs =~= rhs);
}

pub proof fn lemma_assoc_update<V>(s: Seq<(String, V)>, j: int, k: String, v: V)
    requires
        assoc_wf(s),
        0 <= j < s.len(),
        k@ == s[j].0@,
    ensures
        assoc_wf(s.update(j, (k, v))),
        assoc_view(s.update(j, (k, v))) == assoc_view(s).insert(k@, v),
{
    let t = s.update(j, (k, v));
    assert(keys_of(t) =~= keys_of(s));
    let ks = keys_of(s);
    let lhs = assoc_view(t);
    let rhs = assoc_view(s).insert(k@, v);
    lemma_assoc_index(s, j);
    assert forall|x: Seq<char>| #[trigger] lhs.contains_key(x) <==> rhs.contains_key(x) by {
    }
    assert forall|x: Seq<char>| lhs.contains_key(x) implies #[trigger] lhs[x] == rhs[x] by {
        let i = choose|i: int| 0 <= i < ks.len() && ks[i] == x;
        assert(keys_of(t)[i] == x);
        lemma_assoc_index(t, i);
        lemma_assoc_index(s, i);
        if i != j {
            assert(t[i] == s[i]);
            assert(ks[j] == k@);
            assert(x != k@);
        } else {
            assert(t[i] == (k, v));
        }
    }
    assert(lhs =~= rhs);
}

/// Dropping the entry at `j` drops its key from the map.
pub proof fn lemma_assoc_remove<V>(s: Seq<(String, V)>, j: int)
    requires
        assoc_wf(s),
        0 <= j < s.len(),
    ensures
        assoc_wf(s.remove(j)),
        assoc_view(s.remove(j)) == assoc_view(s).remove(s[j].0@),
{
    let t = s.remove(j);
    let ks = keys_of(s);
    let kt = keys_of(t);
    assert forall|i: int| 0 <= i < kt.len() implies #[trigger] kt[i] == (if i < j { ks[i] } else { ks[i + 1] }) by {
    }
    assert(kt.no_duplicates()) by {
        assert forall|a: int, b: int| 0 <= a < kt.len() && 0 <= b < kt.len() && a != b implies kt[a] != kt[b] by {
            let a2 = if a < j { a } else { a + 1 };
            let b2 = if b < j { b } else { b + 1 };
            assert(kt[a] == ks[a2]);
            assert(kt[b] == ks[b2]);
        }
    }
    let lhs = assoc_view(t);
    let rhs = assoc_view(s).remove(s[j].0@);
    assert forall|x: Seq<char>| #[trigger] lhs.contains_key(x) <==> rhs.contains_key(x) by {
        if kt.contains(x) {
            let i = choose|i: int| 0 <= i < kt.len() && kt[i] == x;
            let i2 = if i < j { i } else { i + 1 };
            assert(kt[i] == ks[i2]);
            assert(ks[j] == s[j].0@);
            assert(i2 != j);
        }
        if ks.contains(x) && x != s[j].0@ {
            let i = choose|i: int| 0 <= i < ks.len() && ks[i] == x;
            assert(i != j);
            let i2 = if i < j { i } else { i - 1 };
            assert(kt[i2] == x);
        }
    }
    assert forall|x: Seq<char>| lhs.contains_key(x) implies #[trigger] lhs[x] == rhs[x] by {
        let i = choose|i: int| 0 <= i < kt.len() && kt[i] == x;
        let i2 = if i < j { i } else { i + 1 };
        assert(t[i] == s[i2]);
        assert(kt[i] == ks[i2]);
        lemma_assoc_index(t, i);
        lemma_assoc_index(s, i2);
    }
    assert(lhs =~= rhs);
}

/// A list with distinct keys stands for a map with as many keys as entries.
pub proof fn lemma_assoc_len<V>(s: Seq<(String, V)>)
    requires
        assoc_wf(s),
    ensures
        assoc_view(s).dom().len() == s.len(),
        assoc_view(s).dom().finite(),
{
    let ks = keys_of(s);
    ks.unique_seq_to_set();
    assert(assoc_view(s).dom() =~= ks.to_set());
    vstd::seq_lib::seq_to_set_is_finite(ks);
}

/// The first index whose key is `k`.
pub fn find_key<V>(s: &Vec<(String, V)>, k: &str) -> (r: Option<usize>)
    ensures
        match r {
            Some(i) => i < s@.len() && s@[i as int].0@ == k@ && forall|j: int|
                0 <= j < i ==> (#[trigger] s@[j]).0@ != k@,
            None => !keys_of(s@).contains(k@),
        },
{
    let mut i: usize = 0;
    while i < s.len()
        invariant
            0 <= i <= s@.len(),
            forall|j: int| 0 <= j < i ==> (#[trigger] s@[j]).0@ != k@,
        decreases s@.len() - i,
    {
        if str_eq(s[i].0.as_str(), k) {
            return Some(i);
        }
        i = i + 1;
    }
    proof {
        if keys_of(s@).contains(k@) {
            let j = choose|j: int| 0 <= j < s@.len() && keys_of(s@)[j] == k@;
            assert(s@[j].0@ == k@);
        }
    }
    None
}

/// The value stored under `k`.
pub fn assoc_get<'a, V>(s: &'a Vec<(String, V)>, k: &str) -> (r: Option<&'a V>)
    requires
        assoc_wf(s@),
    ensures
        match r {
            Some(v) => assoc_view(s@).contains_key(k@) && *v == assoc_view(s@)[k@],
            None => !assoc_view(s@).contains_key(k@),
        },
{
    match find_key(s, k) {
        Some(i) => {
            proof {
                lemma_assoc_index(s@, i as int);
            }
            Some(&s[i].1)
        },
        None => None,
    }
}

/// Store `v` under `k`, replacing the value stored there before (as `HashMap::insert`).
pub fn assoc_insert<V>(s: &mut Vec<(String, V)>, k: String, v: V)
    requires
        assoc_wf(old(s)@),
    ensures
        assoc_wf(final(s)@),
        assoc_view(final(s)@) == assoc_view(old(s)@).insert(k@, v),
{
    match find_key(s, k.as_str()) {
        Some(i) => {
            proof {
                lemma_assoc_update(s@, i as int, k, v);
            }
            s.set(i, (k, v));
        },
        None => {
            proof {
                lemma_assoc_push(s@, k, v);
            }
            s.push((k, v));
        },
    }
}

} // verus!

verus! {

/// A map from text keys to text values, kept as a list of pairs with
/// distinct keys.
#[derive(Debug)]
pub struct StringMap {
    entries: Vec<(String, String)>,
}

impl View for StringMap {
    type V = Map<Seq<char>, Seq<char>>;

    closed spec fn view(&self) -> Map<Seq<char>, Seq<char>> {
        assoc_view(self.entries@).map_values(|v: String| v@)
    }
}

impl StringMap {
    #[verifier::type_invariant]
    closed spec fn wf(self) -> bool {
        assoc_wf(self.entries@)
    }

    /// The empty map.
    pub fn new() -> (r: Self)
        ensures
            r@ == Map::<Seq<char>, Seq<char>>::empty(),
    {
        let r = StringMap { entries: Vec::new() };
        proof {
            lemma_assoc_empty(r.entries@);
            assert(r@ =~= Map::<Seq<char>, Seq<char>>::empty());
        }
        r
    }

    /// Stores `value` under `key`, replacing what was stored there.
    pub fn insert(&mut self, key: String, value: String)
        ensures
            final(self)@ == old(self)@.insert(key@, value@),
    {
        proof {
            use_type_invariant(&*self);
        }
        let ghost k = key@;
        let ghost v = value;
        let ghost before = self.entries@;
        let mut entries = Vec::new();
        std::mem::swap(&mut entries, &mut self.entries);
        assoc_insert(&mut entries, key, value);
        self.entries = entries;
        proof {
            assert(self@ =~= assoc_view(before).map_values(|v: String| v@).insert(k, v@));
        }
    }

    /// The value stored under `key`.
    pub fn get(&self, key: &str) -> (r: Option<&String>)
        ensures
            match r {
                Some(v) => self@.contains_key(key@) && v@ == self@[key@],
                None => !self@.contains_key(key@),
            },
    {
        proof {
            use_type_invariant(self);
        }
        assoc_get(&self.entries, key)
    }

    /// Whether something is stored under `key`.
    pub fn contains_key(&self, key: &str) -> (r: bool)
        ensures
            r == self@.contains_key(key@),
    {
        self.get(key).is_some()
    }

    /// The number of keys.
    pub fn len(&self) -> (r: usize)
        ensures
            r == self@.len(),
    {
        proof {
            use_type_invariant(self);
            lemma_assoc_len(self.entries@);
            assert(self@.dom() =~= assoc_view(self.entries@).dom());
        }
        self.entries.len()
    }

    /// The stored pairs, each key once.
    pub fn pairs(&self) -> (r: &Vec<(String, String)>)
        ensures
            assoc_wf(r@),
            assoc_view(r@).map_values(|v: String| v@) == self@,
    {
        proof {
            use_type_invariant(self);
        }
        &self.entries
    }
}

impl Clone for StringMap {
    /// An independent map with the same contents.
    fn clone(&self) -> (r: Self)
        ensures
            r@ == self@,
    {
        proof {
            use_type_invariant(self);
        }
        let ghost es = self.entries@;
        let mut m = StringMap::new();
        let mut i: usize = 0;
        while i < self.entries.len()
            invariant
                0 <= i <= es.len(),
                es == self.entries@,
                assoc_wf(es),
                m@ == assoc_view(es.take(i as int)).map_values(|v: String| v@),
            decreases es.len() - i,
        {
            let k = copy_string(self.entries[i].0.as_str());
            let v = copy_string(self.entries[i].1.as_str());
            proof {
                let t = es.take(i as int);
                assert(es.take(i + 1) =~= t.push(es[i as int]));
                assert(keys_of(t) =~= keys_of(es).take(i as int));
                assert(!keys_of(t).contains(es[i as int].0@)) by {
                    if keys_of(t).contains(es[i as int].0@) {
                        let j = choose|j: int| 0 <= j < keys_of(t).len() && keys_of(t)[j] == es[i as int].0@;
                        assert(keys_of(es)[j] == keys_of(es)[i as int]);
                    }
                }
                assert(assoc_wf(t)) by {
                    assert forall|a: int, b: int| 0 <= a < keys_of(t).len() && 0 <= b < keys_of(t).len() && a != b
                        implies keys_of(t)[a] != keys_of(t)[b] by {
                        assert(keys_of(t)[a] == keys_of(es)[a]);
                        assert(keys_of(t)[b] == keys_of(es)[b]);
                    }
                }
                lemma_assoc_push(t, es[i as int].0, es[i as int].1);
            }
            m.insert(k, v);
            i = i + 1;
            proof {
                assert(m@ =~= assoc_view(es.take(i as int)).map_values(|v: String| v@));
            }
        }
        proof {
            assert(es.take(es.len() as int) =~= es);
        }
        m
    }
}

} // verus!

verus! {

/// A map from text keys to values, kept as a list of pairs with distinct
/// keys, in the order the keys were first stored.
#[derive(Debug)]
pub struct TextMap<V> {
    entries: Vec<(String, V)>,
}

impl<V> View for TextMap<V> {
    type V = Map<Seq<char>, V>;

    closed spec fn view(&self) -> Map<Seq<char>, V> {
        assoc_view(self.entries@)
    }
}

impl<V> TextMap<V> {
    #[verifier::type_invariant]
    closed spec fn wf(self) -> bool {
        assoc_wf(self.entries@)
    }

    /// The stored pairs.
    pub closed spec fn spec_entries(&self) -> Seq<(String, V)> {
        self.entries@
    }

    /// The empty map.
    pub fn new() -> (r: Self)
        ensures
            r@ == Map::<Seq<char>, V>::empty(),
            r.spec_entries().len() == 0,
    {
        let r = TextMap { entries: Vec::new() };
        proof {
            lemma_assoc_empty(r.entries@);
        }
        r
    }

    /// Stores `value` under `key`, replacing what was stored there.
    pub fn insert(&mut self, key: String, value: V)
        ensures
            final(self)@ == old(self)@.insert(key@, value),
    {
        proof {
            use_type_invariant(&*self);
        }
        let mut entries = Vec::new();
        std::mem::swap(&mut entries, &mut self.entries);
        assoc_insert(&mut entries, key, value);
        self.entries = entries;
    }

    /// The value stored under `key`.
    pub fn get(&self, key: &str) -> (r: Option<&V>)
        ensures
            match r {
                Some(v) => self@.contains_key(key@) && *v == self@[key@],
                None => !self@.contains_key(key@),
            },
    {
        proof {
            use_type_invariant(self);
        }
        assoc_get(&self.entries, key)
    }

    /// The number of keys.
    pub fn len(&self) -> (r: usize)
        ensures
            r == self@.len(),
            r == self.spec_entries().len(),
    {
        proof {
            use_type_invariant(self);
            lemma_assoc_len(self.entries@);
        }
        self.entries.len()
    }

    /// Drops what is stored under `key`, giving it back.
    pub fn remove(&mut self, key: &str) -> (r: Option<V>)
        ensures
            final(self)@ == old(self)@.remove(key@),
            match r {
                Some(v) => old(self)@.contains_key(key@) && v == old(self)@[key@],
                None => !old(self)@.contains_key(key@),
            },
    {
        proof {
            use_type_invariant(&*self);
        }
        match find_key(&self.entries, key) {
            Some(i) => {
                let mut entries = Vec::new();
                std::mem::swap(&mut entries, &mut self.entries);
                proof {
                    lemma_assoc_remove(entries@, i as int);
                    lemma_assoc_index(entries@, i as int);
                }
                let (_, v) = entries.remove(i);
                self.entries = entries;
                Some(v)
            },
            None => {
                proof {
                    assert(self@.remove(key@) =~= self@);
                }
                None
            },
        }
    }

    /// The stored pairs, each key once.
    pub fn pairs(&self) -> (r: &Vec<(String, V)>)
        ensures
            r@ == self.spec_entries(),
            assoc_wf(r@),
            assoc_view(r@) == self@,
    {
        proof {
            use_type_invariant(self);
        }
        &self.entries
    }
}

} // verus!
