//! Serving the modules this node provides to other peers.

use vstd::prelude::*;
use crate::wasm::loader::cid_texts;
use crate::assoc::{TextMap, assoc_view, keys_of};
use crate::text::{
    copy_string, copy_bytes, has_infix, chars_of, seq_has_infix, texts_of, opt_text, copy_opt,
};
use crate::wasm::loader::ModuleInfo;
use super::protocol::{ModuleRequest, ModuleResponse, SearchResult};

verus! {

/// Counts of what is provided.
#[derive(Debug, Clone)]
pub struct ProviderStats {
    pub modules_count: usize,
    pub total_bytes: usize,
}

/// The modules this node provides, with their metadata.
pub struct ModuleProvider {
    provided_modules: TextMap<Vec<u8>>,
    module_info: TextMap<ModuleInfo>,
}

/// A metadata entry whose name contains `query`.
pub open spec fn name_matches(info: ModuleInfo, query: Seq<char>) -> bool {
    match info.name {
        Some(n) => seq_has_infix(n@, query),
        None => false,
    }
}

/// A search result is the result for `info`.
pub open spec fn result_for(r: SearchResult, info: ModuleInfo) -> bool {
    &&& r.cid@ == info.cid.0@
    &&& opt_text(r.name) == opt_text(info.name)
    &&& opt_text(r.version) == opt_text(info.version)
    &&& opt_text(r.description) == opt_text(info.description)
}

/// The sum of the sizes of the values of a list of pairs.
pub open spec fn sizes(s: Seq<(String, Vec<u8>)>) -> nat
    decreases s.len(),
{
    if s.len() == 0 {
        0
    } else {
        sizes(s.drop_last()) + s.last().1@.len()
    }
}

proof fn lemma_sizes_prefix(s: Seq<(String, Vec<u8>)>, k: int)
    requires
        0 <= k <= s.len(),
    ensures
        sizes(s.take(k)) <= sizes(s),
    decreases s.len() - k,
{
    if k < s.len() {
        lemma_sizes_prefix(s, k + 1);
        assert(s.take(k + 1).drop_last() =~= s.take(k));
    } else {
        assert(s.take(k) =~= s);
    }
}

impl ModuleProvider {
    /// The bytes provided, by CID.
    pub closed spec fn spec_modules(&self) -> Map<Seq<char>, Vec<u8>> {
        self.provided_modules@
    }

    /// The metadata of the modules, by CID.
    pub closed spec fn spec_info(&self) -> Map<Seq<char>, ModuleInfo> {
        self.module_info@
    }

    /// The module entries in the order they were first provided.
    pub closed spec fn spec_module_entries(&self) -> Seq<(String, Vec<u8>)> {
        self.provided_modules.spec_entries()
    }

    /// A provider of nothing yet.
    pub fn new() -> (r: Self)
        ensures
            r.spec_modules() == Map::<Seq<char>, Vec<u8>>::empty(),
            r.spec_info() == Map::<Seq<char>, ModuleInfo>::empty(),
    {
        ModuleProvider { provided_modules: TextMap::new(), module_info: TextMap::new() }
    }

    /// Starts providing a module under its CID.
    pub fn provide_module(&mut self, info: ModuleInfo, bytes: Vec<u8>)
        ensures
            final(self).spec_modules() == old(self).spec_modules().insert(info.cid.0@, bytes),
            final(self).spec_info() == old(self).spec_info().insert(info.cid.0@, info),
    {
        let cid = copy_string(info.cid.0.as_str());
        let cid2 = copy_string(info.cid.0.as_str());
        self.provided_modules.insert(cid, bytes);
        self.module_info.insert(cid2, info);
    }

    /// Answers a request: the bytes or metadata of a module provided (else
    /// `NotFound` for that CID), the modules whose name contains a text, or
    /// the list of CIDs provided.
    pub fn handle_request(&self, request: ModuleRequest) -> (r: ModuleResponse)
        ensures
            match request {
                ModuleRequest::GetModule { cid } => if self.spec_modules().contains_key(cid@) {
                    r matches ModuleResponse::Module { cid: c, bytes } && c@ == cid@ && bytes@
                        == self.spec_modules()[cid@]@
                } else {
                    r matches ModuleResponse::NotFound { cid: c } && c@ == cid@
                },
                ModuleRequest::GetModuleInfo { cid } => if self.spec_info().contains_key(cid@) {
                    r matches ModuleResponse::ModuleInfo {
                        cid: c,
                        name,
                        version,
                        size,
                        dependencies,
                        author,
                        description,
                    } && {
                        let info = self.spec_info()[cid@];
                        &&& c@ == info.cid.0@
                        &&& opt_text(name) == opt_text(info.name)
                        &&& opt_text(version) == opt_text(info.version)
                        &&& size == info.size
                        &&& texts_of(dependencies@) == cid_texts(info.dependencies@)
                        &&& opt_text(author) == opt_text(info.author)
                        &&& opt_text(description) == opt_text(info.description)
                    }
                } else {
                    r matches ModuleResponse::NotFound { cid: c } && c@ == cid@
                },
                ModuleRequest::SearchByName { name } => r matches ModuleResponse::SearchResults {
                    modules,
                } && self.search_spec(name@, modules@),
                ModuleRequest::ListModules => r matches ModuleResponse::ModuleList { cids } && texts_of(
                    cids@,
                ) == keys_of(self.spec_module_entries()),
            },
    {
        match request {
            ModuleRequest::GetModule { cid } => match self.provided_modules.get(cid.as_str()) {
                Some(bytes) => ModuleResponse::Module { cid, bytes: copy_bytes(bytes.as_slice()) },
                None => ModuleResponse::NotFound { cid },
            },
            ModuleRequest::GetModuleInfo { cid } => match self.module_info.get(cid.as_str()) {
                Some(info) => {
                    let mut deps: Vec<String> = Vec::new();
                    let mut i: usize = 0;
                    while i < info.dependencies.len()
                        invariant
                            0 <= i <= info.dependencies@.len(),
                            texts_of(deps@) == cid_texts(info.dependencies@.take(i as int)),
                        decreases info.dependencies@.len() - i,
                    {
                        let d = copy_string(info.dependencies[i].0.as_str());
                        proof {
                            assert(texts_of(deps@.push(d)) =~= texts_of(deps@).push(d@));
                            assert(cid_texts(info.dependencies@.take(i + 1)) =~= cid_texts(
                                info.dependencies@.take(i as int),
                            ).push(info.dependencies@[i as int].0@));
                        }
                        deps.push(d);
                        i = i + 1;
                    }
                    proof {
                        assert(info.dependencies@.take(info.dependencies@.len() as int)
                            =~= info.dependencies@);
                    }
                    ModuleResponse::ModuleInfo {
                        cid: copy_string(info.cid.0.as_str()),
                        name: copy_opt(&info.name),
                        version: copy_opt(&info.version),
                        size: info.size,
                        dependencies: deps,
                        author: copy_opt(&info.author),
                        description: copy_opt(&info.description),
                    }
                },
                None => ModuleResponse::NotFound { cid },
            },
            ModuleRequest::SearchByName { name } => {
                let modules = self.search(name.as_str());
                ModuleResponse::SearchResults { modules }
            },
            ModuleRequest::ListModules => ModuleResponse::ModuleList { cids: self.provided_cids() },
        }
    }

    /// `results` are the search results for `query`: one for each entry
    /// whose name contains `query`, in entry order.
    pub closed spec fn search_spec(&self, query: Seq<char>, results: Seq<SearchResult>) -> bool {
        let e = self.module_info.spec_entries();
        let hits = e.filter(|p: (String, ModuleInfo)| name_matches(p.1, query));
        &&& results.len() == hits.len()
        &&& forall|i: int| 0 <= i < results.len() ==> result_for(#[trigger] results[i], hits[i].1)
    }

    fn search(&self, query: &str) -> (r: Vec<SearchResult>)
        ensures
            self.search_spec(query@, r@),
    {
        let pairs = self.module_info.pairs();
        let ghost e = pairs@;
        let q = chars_of(query);
        let mut out: Vec<SearchResult> = Vec::new();
        let mut i: usize = 0;
        while i < pairs.len()
            invariant
                0 <= i <= pairs@.len(),
                e == pairs@,
                e == self.module_info.spec_entries(),
                q@ == query@,
                out@.len() == e.take(i as int).filter(|p: (String, ModuleInfo)| name_matches(p.1, query@)).len(),
                forall|j: int| 0 <= j < out@.len() ==> result_for(
                    #[trigger] out@[j],
                    e.take(i as int).filter(|p: (String, ModuleInfo)| name_matches(p.1, query@))[j].1,
                ),
            decreases pairs@.len() - i,
        {
            let info = &pairs[i].1;
            proof {
                reveal(Seq::filter);
                assert(e.take(i + 1).drop_last() =~= e.take(i as int));
                assert(e.take(i + 1).last() == pairs@[i as int]);
            }
            let hit = match &info.name {
                Some(n) => {
                    let nc = chars_of(n.as_str());
                    has_infix(nc.as_slice(), q.as_slice())
                },
                None => false,
            };
            if hit {
                let r = SearchResult {
                    cid: copy_string(info.cid.0.as_str()),
                    name: copy_opt(&info.name),
                    version: copy_opt(&info.version),
                    description: copy_opt(&info.description),
                };
                out.push(r);
            }
            i = i + 1;
        }
        proof {
            assert(e.take(pairs@.len() as int) =~= e);
        }
        out
    }

    /// The CIDs provided, in the order first provided.
    pub fn provided_cids(&self) -> (r: Vec<String>)
        ensures
            texts_of(r@) == keys_of(self.spec_module_entries()),
    {
        let pairs = self.provided_modules.pairs();
        let mut out: Vec<String> = Vec::new();
        let mut i: usize = 0;
        while i < pairs.len()
            invariant
                0 <= i <= pairs@.len(),
                texts_of(out@) == keys_of(pairs@.take(i as int)),
            decreases pairs@.len() - i,
        {
            let c = copy_string(pairs[i].0.as_str());
            proof {
                assert(texts_of(out@.push(c)) =~= texts_of(out@).push(c@));
                assert(keys_of(pairs@.take(i + 1)) =~= keys_of(pairs@.take(i as int)).push(pairs@[i as int].0@));
            }
            out.push(c);
            i = i + 1;
        }
        proof {
            assert(pairs@.take(pairs@.len() as int) =~= pairs@);
        }
        out
    }

    /// Whether the module `cid` is provided.
    pub fn is_providing(&self, cid: &str) -> (r: bool)
        ensures
            r == self.spec_modules().contains_key(cid@),
    {
        self.provided_modules.get(cid).is_some()
    }

    /// Stops providing the module `cid`.
    pub fn stop_providing(&mut self, cid: &str)
        ensures
            final(self).spec_modules() == old(self).spec_modules().remove(cid@),
            final(self).spec_info() == old(self).spec_info().remove(cid@),
    {
        self.provided_modules.remove(cid);
        self.module_info.remove(cid);
    }

    /// How many modules are provided, and their bytes in all.
    pub fn stats(&self) -> (r: ProviderStats)
        requires
            sizes(self.spec_module_entries()) <= usize::MAX,
        ensures
            r.modules_count == self.spec_modules().len(),
            r.total_bytes == sizes(self.spec_module_entries()),
    {
        let pairs = self.provided_modules.pairs();
        let mut total: usize = 0;
        let mut i: usize = 0;
        while i < pairs.len()
            invariant
                0 <= i <= pairs@.len(),
                pairs@ == self.spec_module_entries(),
                sizes(pairs@) <= usize::MAX,
                total == sizes(pairs@.take(i as int)),
            decreases pairs@.len() - i,
        {
            proof {
                assert(pairs@.take(i + 1).drop_last() =~= pairs@.take(i as int));
                lemma_sizes_prefix(pairs@, i + 1);
            }
            total = total + pairs[i].1.len();
            i = i + 1;
        }
        proof {
            assert(pairs@.take(pairs@.len() as int) =~= pairs@);
        }
        ProviderStats { modules_count: self.provided_modules.len(), total_bytes: total }
    }
}

} // verus!
