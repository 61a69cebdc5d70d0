//! Resolving what a request names to a content identifier, and the order
//! in which a module's dependencies are fetched.

use vstd::prelude::*;
use crate::wasm::loader::cid_texts;
use crate::content::publisher::ModuleMetadata;
use crate::text::{
    chars_of, lit, str_eq, is_ascii_alnum, copy_string, texts_of, opt_text, copy_opt,
    contains_text, copy_strings,
};
use crate::wasm::loader::{ModuleCid, ModuleInfo};

verus! {

/// An identifier taken for a CID as it stands: a leading `b`, more than 30
/// bytes, and only ASCII letters and digits.
pub open spec fn cid_identifier(s: Seq<char>, nbytes: int) -> bool {
    &&& s.len() > 0 && s[0] == 'b'
    &&& nbytes > 30
    &&& forall|i: int| 0 <= i < s.len() ==> is_ascii_alnum(#[trigger] s[i])
}

/// Resolves what requests name to content identifiers.
pub struct ContentResolver;

impl ContentResolver {
    /// Whether `s` is taken for a CID as it stands (see `cid_identifier`).
    pub fn looks_like_cid(s: &str) -> (r: bool)
        ensures
            r == cid_identifier(s@, s.len() as int),
    {
        let c = chars_of(s);
        if c.len() == 0 || c[0] != 'b' || s.len() <= 30 {
            return false;
        }
        let mut i: usize = 0;
        while i < c.len()
            invariant
                0 <= i <= c@.len(),
                c@ == s@,
                forall|j: int| 0 <= j < i ==> is_ascii_alnum(#[trigger] c@[j]),
            decreases c@.len() - i,
        {
            let ch = c[i];
            if !(('a' <= ch && ch <= 'z') || ('A' <= ch && ch <= 'Z') || ('0' <= ch && ch <= '9')) {
                return false;
            }
            i = i + 1;
        }
        true
    }

    /// The CID an identifier stands for without a lookup: itself when it is
    /// taken for a CID; `None` when it is a name to look up.
    pub fn resolve_local(identifier: &str) -> (r: Option<String>)
        ensures
            cid_identifier(identifier@, identifier.len() as int) ==> (r matches Some(c) && c@ == identifier@),
            !cid_identifier(identifier@, identifier.len() as int) ==> r is None,
    {
        if Self::looks_like_cid(identifier) {
            Some(lit(identifier))
        } else {
            None
        }
    }

    /// The CID a name resolves to, given the modules found for it: the
    /// first one's.
    pub fn first_cid(results: &Vec<ModuleMetadata>) -> (r: Option<String>)
        ensures
            results@.len() == 0 ==> r is None,
            results@.len() > 0 ==> (r matches Some(c) && c@ == results@[0].cid@),
    {
        if results.len() == 0 {
            None
        } else {
            Some(lit(results[0].cid.as_str()))
        }
    }
}

/// The CIDs of `v` not in `seen`, in order.
pub open spec fn not_seen(v: Seq<Seq<char>>, seen: Seq<Seq<char>>) -> Seq<Seq<char>>
    decreases v.len(),
{
    if v.len() == 0 {
        Seq::empty()
    } else if seen.contains(v.last()) {
        not_seen(v.drop_last(), seen)
    } else {
        not_seen(v.drop_last(), seen).push(v.last())
    }
}

/// The dependencies still to fetch, breadth first: a queue of CIDs and the
/// CIDs already taken from it. Each CID is handed out once.
pub struct DependencyQueue {
    queue: Vec<String>,
    seen: Vec<String>,
}

impl DependencyQueue {
    /// The CIDs waiting, in order.
    pub closed spec fn spec_queue(&self) -> Seq<Seq<char>> {
        texts_of(self.queue@)
    }

    /// The CIDs already handed out.
    pub closed spec fn spec_seen(&self) -> Seq<Seq<char>> {
        texts_of(self.seen@)
    }

    /// A queue of a module's direct dependencies, in order.
    pub fn new(dependencies: &Vec<ModuleCid>) -> (r: Self)
        ensures
            r.spec_queue() == cid_texts(dependencies@),
            r.spec_seen().len() == 0,
    {
        let mut queue: Vec<String> = Vec::new();
        let mut i: usize = 0;
        while i < dependencies.len()
            invariant
                0 <= i <= dependencies@.len(),
                texts_of(queue@) == cid_texts(dependencies@.take(i as int)),
            decreases dependencies@.len() - i,
        {
            let c = lit(dependencies[i].0.as_str());
            proof {
                assert(texts_of(queue@.push(c)) =~= texts_of(queue@).push(c@));
                assert(cid_texts(dependencies@.take(i + 1)) =~= cid_texts(dependencies@.take(i as int)).push(
                    dependencies@[i as int].0@,
                ));
            }
            queue.push(c);
            i = i + 1;
        }
        proof {
            assert(dependencies@.take(dependencies@.len() as int) =~= dependencies@);
        }
        let seen: Vec<String> = Vec::new();
        assert(texts_of(seen@) =~= Seq::<Seq<char>>::empty());
        DependencyQueue { queue, seen }
    }

    /// The next CID to fetch: the first waiting one not handed out before,
    /// which is then marked as handed out; the ones before it are dropped.
    /// `None` when no such CID waits.
    pub fn next(&mut self) -> (r: Option<String>)
        ensures
            r matches Some(c) ==> !old(self).spec_seen().contains(c@) && final(self).spec_seen()
                == old(self).spec_seen().push(c@) && old(self).spec_queue().contains(c@),
            r is None ==> final(self).spec_queue().len() == 0 && final(self).spec_seen()
                == old(self).spec_seen() && forall|c: Seq<char>| #[trigger] old(self).spec_queue().contains(c)
                ==> old(self).spec_seen().contains(c),
            final(self).spec_queue().len() < old(self).spec_queue().len() || old(self).spec_queue().len() == 0,
            old(self).spec_seen().no_duplicates() ==> final(self).spec_seen().no_duplicates(),
    {
        let ghost q0 = self.spec_queue();
        let ghost s0 = self.spec_seen();
        while self.queue.len() > 0
            invariant
                q0 == old(self).spec_queue(),
                s0 == old(self).spec_seen(),
                self.spec_seen() == s0,
                self.spec_queue().len() <= q0.len(),
                forall|c: Seq<char>| #[trigger] self.spec_queue().contains(c) ==> q0.contains(c),
                forall|c: Seq<char>| #[trigger] q0.contains(c) && !self.spec_queue().contains(c) ==> s0.contains(c),
                self.spec_queue().len() == q0.len() || self.spec_queue().len() < q0.len(),
            decreases self.queue@.len(),
        {
            let ghost before = self.spec_queue();
            let c = self.queue.remove(0);
            proof {
                assert(self.spec_queue() =~= before.drop_first());
                assert(before[0] == c@);
                assert forall|x: Seq<char>| #[trigger] self.spec_queue().contains(x) implies q0.contains(x) by {
                    let j = choose|j: int| 0 <= j < self.spec_queue().len() && self.spec_queue()[j] == x;
                    assert(before[j + 1] == x);
                    assert(before.contains(x));
                }
            }
            if !contains_text(&self.seen, c.as_str()) {
                let ghost seen_before = self.seen@;
                self.seen.push(lit(c.as_str()));
                proof {
                    assert(texts_of(self.seen@) =~= texts_of(seen_before).push(c@));
                    assert(before.contains(c@)) by {
                        assert(before[0] == c@);
                    }
                    assert(q0.contains(c@));
                    assert(s0.no_duplicates() ==> s0.push(c@).no_duplicates()) by {
                        if s0.no_duplicates() {
                            assert forall|a: int, b: int| 0 <= a < b < s0.push(c@).len() implies s0.push(
                                c@,
                            )[a] != s0.push(c@)[b] by {
                                if b == s0.len() {
                                    assert(s0[a] == s0.push(c@)[a]);
                                }
                            }
                        }
                    }
                }
                return Some(c);
            }
            proof {
                assert forall|x: Seq<char>| #[trigger] q0.contains(x) && !self.spec_queue().contains(x) implies s0.contains(x) by {
                    if before.contains(x) {
                        let j = choose|j: int| 0 <= j < before.len() && before[j] == x;
                        if j > 0 {
                            assert(self.spec_queue()[j - 1] == x);
                        }
                    }
                }
            }
        }
        None
    }

    /// Queues the dependencies of a fetched module that were not handed out
    /// yet, in order.
    pub fn discovered(&mut self, dependencies: &Vec<ModuleCid>)
        ensures
            final(self).spec_seen() == old(self).spec_seen(),
            final(self).spec_queue() == old(self).spec_queue() + not_seen(cid_texts(dependencies@), old(self).spec_seen()),
    {
        let ghost q0 = self.spec_queue();
        let ghost s0 = self.spec_seen();
        let mut i: usize = 0;
        while i < dependencies.len()
            invariant
                0 <= i <= dependencies@.len(),
                self.spec_seen() == s0,
                self.spec_queue() == q0 + not_seen(cid_texts(dependencies@.take(i as int)), s0),
            decreases dependencies@.len() - i,
        {
            let d = &dependencies[i];
            proof {
                assert(cid_texts(dependencies@.take(i + 1)) =~= cid_texts(dependencies@.take(i as int)).push(d.0@));
                assert(cid_texts(dependencies@.take(i + 1)).drop_last() =~= cid_texts(dependencies@.take(i as int)));
            }
            if !contains_text(&self.seen, d.0.as_str()) {
                let c = lit(d.0.as_str());
                proof {
                    assert(texts_of(self.queue@.push(c)) =~= texts_of(self.queue@).push(c@));
                    assert(q0 + not_seen(cid_texts(dependencies@.take(i + 1)), s0) =~= (q0 + not_seen(
                        cid_texts(dependencies@.take(i as int)),
                        s0,
                    )).push(c@));
                }
                self.queue.push(c);
            }
            i = i + 1;
        }
        proof {
            assert(dependencies@.take(dependencies@.len() as int) =~= dependencies@);
        }
    }
}

/// What a module fetch does next.
#[derive(Debug)]
pub enum FetchAction {
    /// Ask this provider for the module's bytes.
    TryProvider(String),
    /// The fetch is over: the bytes, or `None` when nobody gave them.
    Give(Option<Vec<u8>>),
}

/// A module fetch under way: the providers its metadata named, in order,
/// and how many of them were asked. Each is asked once, in turn, until one
/// gives the bytes.
pub struct ModuleFetch {
    providers: Vec<String>,
    asked: usize,
}

impl ModuleFetch {
    /// The providers, in the order they are asked.
    pub closed spec fn spec_providers(&self) -> Seq<Seq<char>> {
        texts_of(self.providers@)
    }

    /// How many providers were asked so far.
    pub closed spec fn spec_asked(&self) -> nat {
        self.asked as nat
    }

    /// No more providers were asked than there are.
    pub closed spec fn wf(&self) -> bool {
        self.asked <= self.providers@.len()
    }

    /// Starts a fetch: bytes found in the cache are given at once; without
    /// metadata, or with no providers in it, nothing is; else the first
    /// provider is asked.
    pub fn start(cached: Option<Vec<u8>>, metadata: Option<&ModuleMetadata>) -> (r: (Self, FetchAction))
        ensures
            r.0.wf(),
            cached matches Some(b) ==> (r.1 matches FetchAction::Give(Some(g)) && g@ == b@),
            cached is None && metadata is None ==> r.1 matches FetchAction::Give(None),
            cached is None && metadata is Some ==> ({
                let ps = texts_of(metadata->0.providers@);
                &&& r.0.spec_providers() == ps
                &&& ps.len() == 0 ==> (r.1 matches FetchAction::Give(None)) && r.0.spec_asked() == 0
                &&& ps.len() > 0 ==> (r.1 matches FetchAction::TryProvider(p) && p@ == ps[0])
                    && r.0.spec_asked() == 1
            }),
    {
        if let Some(b) = cached {
            return (ModuleFetch { providers: Vec::new(), asked: 0 }, FetchAction::Give(Some(b)));
        }
        match metadata {
            None => (ModuleFetch { providers: Vec::new(), asked: 0 }, FetchAction::Give(None)),
            Some(m) => {
                let providers = copy_strings(&m.providers);
                if providers.len() == 0 {
                    (ModuleFetch { providers, asked: 0 }, FetchAction::Give(None))
                } else {
                    let first = copy_string(providers[0].as_str());
                    assert(texts_of(providers@)[0] == providers@[0]@);
                    (ModuleFetch { providers, asked: 1 }, FetchAction::TryProvider(first))
                }
            },
        }
    }

    /// What follows a provider's answer (`None` when its id did not parse,
    /// the request failed or it had no bytes): its bytes are given; else
    /// the next provider is asked; when none is left, nothing is given.
    pub fn on_answer(&mut self, fetched: Option<Vec<u8>>) -> (r: FetchAction)
        requires
            old(self).wf(),
        ensures
            final(self).wf(),
            final(self).spec_providers() == old(self).spec_providers(),
            fetched matches Some(b) ==> (r matches FetchAction::Give(Some(g)) && g@ == b@)
                && final(self).spec_asked() == old(self).spec_asked(),
            fetched is None && old(self).spec_asked() < old(self).spec_providers().len() ==> (r matches FetchAction::TryProvider(p)
                && p@ == old(self).spec_providers()[old(self).spec_asked() as int])
                && final(self).spec_asked() == old(self).spec_asked() + 1,
            fetched is None && old(self).spec_asked() >= old(self).spec_providers().len() ==> (r matches FetchAction::Give(None))
                && final(self).spec_asked() == old(self).spec_asked(),
    {
        if let Some(b) = fetched {
            return FetchAction::Give(Some(b));
        }
        if self.asked < self.providers.len() {
            let p = copy_string(self.providers[self.asked].as_str());
            assert(texts_of(self.providers@)[self.asked as int] == self.providers@[self.asked as int]@);
            self.asked = self.asked + 1;
            FetchAction::TryProvider(p)
        } else {
            FetchAction::Give(None)
        }
    }
}

/// What is cached of a module fetched from a provider: its CID, the
/// metadata's name, version, dependencies (as CIDs), author and
/// description, and the size of the bytes received.
pub fn fetched_info(cid: &str, metadata: &ModuleMetadata, size: usize) -> (r: ModuleInfo)
    ensures
        r.cid.0@ == cid@,
        opt_text(r.name) == opt_text(metadata.name),
        opt_text(r.version) == opt_text(metadata.version),
        r.size == size,
        cid_texts(r.dependencies@) == texts_of(metadata.dependencies@),
        opt_text(r.author) == opt_text(metadata.author),
        opt_text(r.description) == opt_text(metadata.description),
{
    let mut deps: Vec<ModuleCid> = Vec::new();
    let mut i: usize = 0;
    while i < metadata.dependencies.len()
        invariant
            0 <= i <= metadata.dependencies@.len(),
            cid_texts(deps@) == texts_of(metadata.dependencies@.take(i as int)),
        decreases metadata.dependencies@.len() - i,
    {
        let d = ModuleCid::new(copy_string(metadata.dependencies[i].as_str()));
        proof {
            assert(cid_texts(deps@.push(d)) =~= cid_texts(deps@).push(d.0@));
            assert(texts_of(metadata.dependencies@.take(i + 1)) =~= texts_of(
                metadata.dependencies@.take(i as int),
            ).push(metadata.dependencies@[i as int]@));
        }
        deps.push(d);
        i = i + 1;
    }
    proof {
        assert(metadata.dependencies@.take(metadata.dependencies@.len() as int) =~= metadata.dependencies@);
    }
    ModuleInfo {
        cid: ModuleCid::new(copy_string(cid)),
        name: copy_opt(&metadata.name),
        version: copy_opt(&metadata.version),
        size,
        dependencies: deps,
        author: copy_opt(&metadata.author),
        description: copy_opt(&metadata.description),
    }
}

} // verus!
