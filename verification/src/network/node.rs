//! Decisions of the network node that do not touch the network: reading
//! name queries and picking the version that answers a request.

use vstd::prelude::*;
use crate::wasm::loader::cid_texts;
use crate::text::{
    chars_of, trim_chars, trimmed, seq_find, find_char, chars_take, chars_from,
    string_from_chars, str_eq, copy_string, concat3, decimal, decimal_chars, texts_of, opt_text,
    utf8, copy_opt, contains_text,
};
use crate::gateway::router::pair_views;
use crate::content::publisher::{ModuleMetadata, ModulePublisher, DhtRecord};
use crate::content::discovery::{ModuleDiscovery, QueryType};
use crate::content::protocol::{SearchResult, ModuleResponse};
use crate::wasm::loader::{ModuleInfo, ModuleCid};
use vstd::string::StringExecFns;
use crate::wasm::loader::version::{
    find_latest, find_best_match, highest_of, valid_versions, meeting, version_texts,
    spec_requirement_valid, VersionError,
};

verus! {

/// A name and a version, trimmed: an empty name gives `fallback` and no
/// version; an empty version gives no version.
pub open spec fn normalized(name: Seq<char>, version: Seq<char>, fallback: Seq<char>) -> (Seq<char>, Option<Seq<char>>) {
    let n = trimmed(name);
    let v = trimmed(version);
    if n.len() == 0 {
        (fallback, None)
    } else if v.len() == 0 {
        (n, None)
    } else {
        (n, Some(v))
    }
}

/// A name query `name@version` or `name:version` (the first `@` decides,
/// else the first `:`), trimmed; a bare name has no version.
pub open spec fn name_query(query: Seq<char>) -> (Seq<char>, Option<Seq<char>>) {
    let t = trimmed(query);
    let i = seq_find(t, '@');
    if i >= 0 {
        normalized(t.take(i), t.skip(i + 1), t)
    } else {
        let j = seq_find(t, ':');
        if j >= 0 {
            normalized(t.take(j), t.skip(j + 1), t)
        } else {
            (t, None)
        }
    }
}

/// A name and version as values.
pub open spec fn name_version_view(r: (String, Option<String>)) -> (Seq<char>, Option<Seq<char>>) {
    (
        r.0@,
        match r.1 {
            Some(v) => Some(v@),
            None => None,
        },
    )
}

/// Normalizes a name and version (see `normalized`).
pub fn normalize_name_version(name: &str, version: &str, fallback: &str) -> (r: (String, Option<String>))
    ensures
        name_version_view(r) == normalized(name@, version@, fallback@),
{
    let n = trim_chars(chars_of(name).as_slice());
    let v = trim_chars(chars_of(version).as_slice());
    if n.len() == 0 {
        return (copy_string(fallback), None);
    }
    if v.len() == 0 {
        return (string_from_chars(n.as_slice()), None);
    }
    (string_from_chars(n.as_slice()), Some(string_from_chars(v.as_slice())))
}

/// Splits a name query into name and version (see `name_query`).
pub fn split_name_query(query: &str) -> (r: (String, Option<String>))
    ensures
        name_version_view(r) == name_query(query@),
{
    let t = trim_chars(chars_of(query).as_slice());
    let ts = string_from_chars(t.as_slice());
    match find_char(t.as_slice(), '@') {
        Some(i) => {
            assert(i < t.len());
            let name = string_from_chars(chars_take(t.as_slice(), i).as_slice());
            let version = string_from_chars(chars_from(t.as_slice(), i + 1).as_slice());
            normalize_name_version(name.as_str(), version.as_str(), ts.as_str())
        },
        None => match find_char(t.as_slice(), ':') {
            Some(j) => {
                assert(j < t.len());
                let name = string_from_chars(chars_take(t.as_slice(), j).as_slice());
                let version = string_from_chars(chars_from(t.as_slice(), j + 1).as_slice());
                normalize_name_version(name.as_str(), version.as_str(), ts.as_str())
            },
            None => (ts, None),
        },
    }
}

/// The versions the modules give, in order; modules without one are
/// skipped.
pub open spec fn module_versions(ms: Seq<ModuleMetadata>) -> Seq<Seq<char>>
    decreases ms.len(),
{
    if ms.len() == 0 {
        Seq::empty()
    } else {
        let r = module_versions(ms.drop_last());
        match ms.last().version {
            Some(v) => r.push(v@),
            None => r,
        }
    }
}

/// The position of the first module whose version is `v`, or -1.
pub open spec fn first_with_version(ms: Seq<ModuleMetadata>, v: Seq<char>) -> int
    decreases ms.len(),
{
    if ms.len() == 0 {
        -1
    } else {
        let f = first_with_version(ms.drop_last(), v);
        if f >= 0 {
            f
        } else if ms.last().version matches Some(x) && x@ == v {
            ms.len() - 1
        } else {
            -1
        }
    }
}

/// The version chosen for `requirement` among `versions`: the highest for
/// `latest`, else the highest meeting the requirement.
pub open spec fn chosen_version(versions: Seq<Seq<char>>, requirement: Seq<char>) -> Option<Seq<char>> {
    if requirement == "latest"@ {
        highest_of(valid_versions(versions))
    } else {
        highest_of(meeting(versions, requirement))
    }
}

proof fn lemma_first_with_version_prefix(ms: Seq<ModuleMetadata>, v: Seq<char>, k: int)
    requires
        0 <= k <= ms.len(),
        first_with_version(ms.take(k), v) >= 0,
    ensures
        first_with_version(ms, v) == first_with_version(ms.take(k), v),
    decreases ms.len() - k,
{
    if k == ms.len() {
        assert(ms.take(k) =~= ms);
    } else {
        assert(ms.take(k + 1).drop_last() =~= ms.take(k));
        lemma_first_with_version_prefix(ms, v, k + 1);
    }
}

fn collect_versions(modules: &Vec<ModuleMetadata>) -> (r: Vec<String>)
    ensures
        version_texts(r@) == module_versions(modules@),
{
    let mut out: Vec<String> = Vec::new();
    let mut i: usize = 0;
    while i < modules.len()
        invariant
            0 <= i <= modules@.len(),
            version_texts(out@) == module_versions(modules@.take(i as int)),
        decreases modules@.len() - i,
    {
        proof {
            assert(modules@.take(i + 1).drop_last() =~= modules@.take(i as int));
            assert(modules@.take(i + 1).last() == modules@[i as int]);
        }
        match &modules[i].version {
            Some(v) => {
                let c = copy_string(v.as_str());
                proof {
                    assert(version_texts(out@.push(c)) =~= version_texts(out@).push(c@));
                }
                out.push(c);
            },
            None => {},
        }
        i = i + 1;
    }
    proof {
        assert(modules@.take(modules@.len() as int) =~= modules@);
    }
    out
}

fn position_of_version(modules: &Vec<ModuleMetadata>, v: &str) -> (r: Option<usize>)
    ensures
        match r {
            Some(i) => i == first_with_version(modules@, v@) && i < modules@.len(),
            None => first_with_version(modules@, v@) == -1,
        },
{
    let mut i: usize = 0;
    while i < modules.len()
        invariant
            0 <= i <= modules@.len(),
            first_with_version(modules@.take(i as int), v@) == -1,
        decreases modules@.len() - i,
    {
        proof {
            assert(modules@.take(i + 1).drop_last() =~= modules@.take(i as int));
            assert(modules@.take(i + 1).last() == modules@[i as int]);
        }
        let hit = match &modules[i].version {
            Some(x) => str_eq(x.as_str(), v),
            None => false,
        };
        if hit {
            proof {
                lemma_first_with_version_prefix(modules@, v@, i + 1);
            }
            return Some(i);
        }
        i = i + 1;
    }
    proof {
        assert(modules@.take(modules@.len() as int) =~= modules@);
    }
    None
}

/// The module that answers a request for `requirement` (`latest` or a
/// version requirement): the first module carrying the chosen version, if
/// any; an invalid requirement is refused.
pub fn select_best_version(modules: Vec<ModuleMetadata>, requirement: &str) -> (r: Result<
    Option<ModuleMetadata>,
    VersionError,
>)
    ensures
        requirement@ != "latest"@ && !spec_requirement_valid(requirement@) ==> r is Err,
        (requirement@ == "latest"@ || spec_requirement_valid(requirement@)) ==> (r matches Ok(o)
            && match chosen_version(module_versions(modules@), requirement@) {
            Some(b) => {
                let i = first_with_version(modules@, b);
                if i >= 0 {
                    o == Some(modules@[i])
                } else {
                    o is None
                }
            },
            None => o is None,
        }),
        requirement@ == "latest"@ ==> (chosen_version(module_versions(modules@), requirement@) is None
            <==> valid_versions(module_versions(modules@)).len() == 0),
        requirement@ != "latest"@ && spec_requirement_valid(requirement@) ==> (chosen_version(
            module_versions(modules@),
            requirement@,
        ) is None <==> meeting(module_versions(modules@), requirement@).len() == 0),
{
    let versions = collect_versions(&modules);
    let best = if str_eq(requirement, "latest") {
        find_latest(versions.as_slice())
    } else {
        match find_best_match(versions.as_slice(), requirement) {
            Ok(b) => b,
            Err(e) => {
                return Err(e);
            },
        }
    };
    match best {
        Some(b) => match position_of_version(&modules, b.as_str()) {
            Some(i) => {
                let mut modules = modules;
                Ok(Some(modules.remove(i)))
            },
            None => Ok(None),
        },
        None => Ok(None),
    }
}

/// `m` is what this node tells of a module `info` it holds itself: its
/// fields, this node (`peer`) as the only provider, published at time 0.
pub open spec fn local_meta_is(m: ModuleMetadata, info: ModuleInfo, peer: Seq<char>) -> bool {
    &&& m.cid@ == info.cid.0@
    &&& opt_text(m.name) == opt_text(info.name)
    &&& opt_text(m.version) == opt_text(info.version)
    &&& m.size == info.size
    &&& texts_of(m.dependencies@) == cid_texts(info.dependencies@)
    &&& opt_text(m.author) == opt_text(info.author)
    &&& opt_text(m.description) == opt_text(info.description)
    &&& texts_of(m.providers@) == seq![peer]
    &&& m.published_at == 0
}

/// The metadata of the modules this node holds, in order (see
/// `local_meta_is`).
pub fn local_metadata(infos: &Vec<ModuleInfo>, local_peer: &str) -> (r: Vec<ModuleMetadata>)
    ensures
        r@.len() == infos@.len(),
        forall|i: int| 0 <= i < infos@.len() ==> local_meta_is(#[trigger] r@[i], infos@[i], local_peer@),
{
    let publisher = ModulePublisher::new(copy_string(local_peer));
    let mut out: Vec<ModuleMetadata> = Vec::new();
    let mut i: usize = 0;
    while i < infos.len()
        invariant
            0 <= i <= infos@.len(),
            publisher.spec_peer() == local_peer@,
            out@.len() == i,
            forall|k: int| 0 <= k < i ==> local_meta_is(#[trigger] out@[k], infos@[k], local_peer@),
        decreases infos@.len() - i,
    {
        let m = publisher.metadata_for(&infos[i], infos[i].size, 0);
        out.push(m);
        i = i + 1;
    }
    out
}

/// `m` is the metadata made of a search result `s` given by `peer`: its
/// CID, name, version and description, `peer` as provider, and nothing
/// else known.
pub open spec fn result_meta_is(m: ModuleMetadata, peer: Seq<char>, s: SearchResult) -> bool {
    &&& m.cid@ == s.cid@
    &&& opt_text(m.name) == opt_text(s.name)
    &&& opt_text(m.version) == opt_text(s.version)
    &&& m.size == 0
    &&& m.dependencies@.len() == 0
    &&& m.author is None
    &&& opt_text(m.description) == opt_text(s.description)
    &&& texts_of(m.providers@) == seq![peer]
    &&& m.published_at == 0
}

/// The results of one peer, each with the peer's ID.
pub open spec fn tagged(peer: Seq<char>, v: Seq<SearchResult>) -> Seq<(Seq<char>, SearchResult)> {
    v.map_values(|s: SearchResult| (peer, s))
}

/// The results of all answers, in order, each with the ID of the peer that
/// gave it.
pub open spec fn flat_results(rs: Seq<(String, Vec<SearchResult>)>) -> Seq<(Seq<char>, SearchResult)>
    decreases rs.len(),
{
    if rs.len() == 0 {
        Seq::empty()
    } else {
        flat_results(rs.drop_last()) + tagged(rs.last().0@, rs.last().1@)
    }
}

/// The CIDs of tagged results.
pub open spec fn result_cids(s: Seq<(Seq<char>, SearchResult)>) -> Seq<Seq<char>> {
    s.map_values(|p: (Seq<char>, SearchResult)| p.1.cid@)
}

/// The CIDs of a list of metadata.
pub open spec fn meta_cids(ms: Seq<ModuleMetadata>) -> Seq<Seq<char>> {
    ms.map_values(|m: ModuleMetadata| m.cid@)
}

/// The results that bring a CID not seen before: neither in `seen` nor
/// in an earlier result.
pub open spec fn fresh_results(seen: Seq<Seq<char>>, s: Seq<(Seq<char>, SearchResult)>) -> Seq<(Seq<char>, SearchResult)>
    decreases s.len(),
{
    if s.len() == 0 {
        Seq::empty()
    } else {
        let f = fresh_results(seen, s.drop_last());
        let c = s.last().1.cid@;
        if seen.contains(c) || result_cids(f).contains(c) {
            f
        } else {
            f.push(s.last())
        }
    }
}

proof fn lemma_concat_contains<A>(a: Seq<A>, b: Seq<A>, x: A)
    ensures
        (a + b).contains(x) <==> (a.contains(x) || b.contains(x)),
{
    if a.contains(x) {
        let i = choose|i: int| 0 <= i < a.len() && a[i] == x;
        assert((a + b)[i] == x);
    }
    if b.contains(x) {
        let i = choose|i: int| 0 <= i < b.len() && b[i] == x;
        assert((a + b)[a.len() + i] == x);
    }
    if (a + b).contains(x) {
        let i = choose|i: int| 0 <= i < (a + b).len() && (a + b)[i] == x;
        if i < a.len() {
            assert(a[i] == x);
        } else {
            assert(b[i - a.len()] == x);
        }
    }
}

/// Of the fresh results, no two share a CID, and none has a CID of `seen`.
pub proof fn lemma_fresh_results_distinct(seen: Seq<Seq<char>>, s: Seq<(Seq<char>, SearchResult)>)
    ensures
        result_cids(fresh_results(seen, s)).no_duplicates(),
        forall|c: Seq<char>| #[trigger] result_cids(fresh_results(seen, s)).contains(c) ==> !seen.contains(c),
    decreases s.len(),
{
    if s.len() > 0 {
        lemma_fresh_results_distinct(seen, s.drop_last());
        let f = fresh_results(seen, s.drop_last());
        let c = s.last().1.cid@;
        if !(seen.contains(c) || result_cids(f).contains(c)) {
            let g = f.push(s.last());
            assert(result_cids(g) =~= result_cids(f).push(c));
            assert forall|x: Seq<char>| #[trigger] result_cids(g).contains(x) implies !seen.contains(x) by {
                let i = choose|i: int| 0 <= i < result_cids(g).len() && result_cids(g)[i] == x;
                if i < f.len() {
                    assert(result_cids(f)[i] == x);
                    assert(result_cids(f).contains(x));
                } else {
                    assert(x == c);
                }
            }
        }
    }
}

fn meta_of_result(peer: &String, s: &SearchResult) -> (r: ModuleMetadata)
    ensures
        result_meta_is(r, peer@, *s),
{
    let mut providers: Vec<String> = Vec::new();
    providers.push(copy_string(peer.as_str()));
    assert(texts_of(providers@) =~= seq![peer@]);
    ModuleMetadata {
        cid: copy_string(s.cid.as_str()),
        name: copy_opt(&s.name),
        version: copy_opt(&s.version),
        size: 0,
        dependencies: Vec::new(),
        author: None,
        description: copy_opt(&s.description),
        providers,
        published_at: 0,
    }
}

/// The answer to a search by name: the local results, then, in the order
/// of the peers' answers, each remote result whose CID was not seen yet
/// (see `fresh_results` and `result_meta_is`).
pub fn merge_search_results(local: Vec<ModuleMetadata>, responses: &Vec<(String, Vec<SearchResult>)>) -> (r: Vec<ModuleMetadata>)
    ensures
        ({
            let fresh = fresh_results(meta_cids(local@), flat_results(responses@));
            &&& r@.len() == local@.len() + fresh.len()
            &&& r@.take(local@.len() as int) == local@
            &&& forall|j: int| 0 <= j < fresh.len() ==> result_meta_is(
                #[trigger] r@[local@.len() + j],
                fresh[j].0,
                fresh[j].1,
            )
        }),
        meta_cids(r@.skip(local@.len() as int)).no_duplicates(),
        forall|c: Seq<char>| #[trigger] meta_cids(r@.skip(local@.len() as int)).contains(c)
            ==> !meta_cids(local@).contains(c),
{
    let ghost local0 = local@;
    let ghost seen0 = meta_cids(local@);
    let mut seen: Vec<String> = Vec::new();
    let mut k: usize = 0;
    while k < local.len()
        invariant
            0 <= k <= local@.len(),
            local@ == local0,
            seen0 == meta_cids(local0),
            texts_of(seen@) == seen0.take(k as int),
        decreases local@.len() - k,
    {
        let c = copy_string(local[k].cid.as_str());
        proof {
            assert(texts_of(seen@.push(c)) =~= texts_of(seen@).push(c@));
            assert(seen0.take(k + 1) =~= seen0.take(k as int).push(seen0[k as int]));
        }
        seen.push(c);
        k = k + 1;
    }
    proof {
        assert(seen0.take(local0.len() as int) =~= seen0);
    }
    let mut out = local;
    let mut i: usize = 0;
    while i < responses.len()
        invariant
            0 <= i <= responses@.len(),
            seen0 == meta_cids(local0),
            ({
                let fresh = fresh_results(seen0, flat_results(responses@.take(i as int)));
                &&& texts_of(seen@) == seen0 + result_cids(fresh)
                &&& out@.len() == local0.len() + fresh.len()
                &&& out@.take(local0.len() as int) == local0
                &&& forall|j: int| 0 <= j < fresh.len() ==> result_meta_is(
                    #[trigger] out@[local0.len() + j],
                    fresh[j].0,
                    fresh[j].1,
                )
            }),
        decreases responses@.len() - i,
    {
        let (peer, results) = &responses[i];
        let ghost before = flat_results(responses@.take(i as int));
        let ghost y = tagged(peer@, results@);
        proof {
            assert(responses@.take(i + 1).drop_last() =~= responses@.take(i as int));
            assert(responses@.take(i + 1).last() == responses@[i as int]);
            assert(flat_results(responses@.take(i + 1)) == before + y);
            assert(before + y.take(0) =~= before);
        }
        let mut j: usize = 0;
        while j < results.len()
            invariant
                0 <= j <= results@.len(),
                seen0 == meta_cids(local0),
                y == tagged(peer@, results@),
                ({
                    let fresh = fresh_results(seen0, before + y.take(j as int));
                    &&& texts_of(seen@) == seen0 + result_cids(fresh)
                    &&& out@.len() == local0.len() + fresh.len()
                    &&& out@.take(local0.len() as int) == local0
                    &&& forall|m: int| 0 <= m < fresh.len() ==> result_meta_is(
                        #[trigger] out@[local0.len() + m],
                        fresh[m].0,
                        fresh[m].1,
                    )
                }),
            decreases results@.len() - j,
        {
            let res = &results[j];
            let ghost prev = fresh_results(seen0, before + y.take(j as int));
            proof {
                assert((before + y.take(j + 1)).drop_last() =~= before + y.take(j as int));
                assert((before + y.take(j + 1)).last() == (peer@, *res));
                lemma_concat_contains(seen0, result_cids(prev), res.cid@);
            }
            if !contains_text(&seen, res.cid.as_str()) {
                let c = copy_string(res.cid.as_str());
                let m = meta_of_result(peer, res);
                let ghost next = prev.push((peer@, *res));
                proof {
                    assert(fresh_results(seen0, before + y.take(j + 1)) == next);
                    assert(result_cids(next) =~= result_cids(prev).push(res.cid@));
                    assert(texts_of(seen@.push(c)) =~= texts_of(seen@).push(c@));
                    assert(seen0 + result_cids(next) =~= (seen0 + result_cids(prev)).push(c@));
                }
                let ghost out_before = out@;
                seen.push(c);
                out.push(m);
                proof {
                    assert(out@ == out_before.push(m));
                    assert(out@.take(local0.len() as int) =~= out_before.take(local0.len() as int));
                    assert forall|q: int| 0 <= q < next.len() implies result_meta_is(
                        #[trigger] out@[local0.len() + q],
                        next[q].0,
                        next[q].1,
                    ) by {
                        if q < prev.len() {
                            assert(out@[local0.len() + q] == out_before[local0.len() + q]);
                        }
                    }
                }
            } else {
                proof {
                    assert(fresh_results(seen0, before + y.take(j + 1)) == prev);
                }
            }
            j = j + 1;
        }
        proof {
            assert(y.take(results@.len() as int) =~= y);
        }
        i = i + 1;
    }
    proof {
        assert(responses@.take(responses@.len() as int) =~= responses@);
        let fresh = fresh_results(seen0, flat_results(responses@));
        lemma_fresh_results_distinct(seen0, flat_results(responses@));
        assert(meta_cids(out@.skip(local0.len() as int)) =~= result_cids(fresh)) by {
            assert forall|q: int| 0 <= q < fresh.len() implies #[trigger] meta_cids(
                out@.skip(local0.len() as int),
            )[q] == result_cids(fresh)[q] by {
                assert(result_meta_is(out@[local0.len() + q], fresh[q].0, fresh[q].1));
            }
        }
    }
    out
}

/// How a DHT lookup ended.
#[derive(Debug, Clone)]
pub enum DhtOutcome {
    /// A record was found; its value.
    Found(Vec<u8>),
    /// The lookup finished without a record.
    Finished,
    /// The lookup failed.
    Failed,
}

/// Who waits on a DHT lookup.
#[derive(Debug, Clone, Copy, PartialEq, Eq, Structural)]
pub enum Waiter {
    /// A client asking for one module's metadata.
    Metadata,
    /// A client asking for search results.
    Search,
}

/// What to do when a DHT lookup ends.
#[derive(Debug, Clone)]
pub enum DhtAnswer {
    /// Answer the metadata client.
    Metadata(Option<ModuleMetadata>),
    /// Answer the search client.
    Search(Vec<ModuleMetadata>),
    /// Tell the client the record's metadata could not be read.
    UnreadableMetadata,
    /// Tell the search client the name record held no CID.
    UnreadableCid,
    /// Look up the metadata of this CID for the same search client.
    LookUpMetadata(String),
    /// Nobody waits for this answer.
    Nothing,
}

/// What a lookup's end calls for, given what it looked for, how it ended,
/// who waits, and the metadata read from a found record (`None` where it
/// could not be read).
pub open spec fn dht_answer_is(
    r: DhtAnswer,
    query: QueryType,
    outcome: DhtOutcome,
    waiter: Option<Waiter>,
    parsed: Option<ModuleMetadata>,
) -> bool {
    match (query, waiter) {
        (QueryType::ModuleMetadata { .. }, Some(w)) => match outcome {
            DhtOutcome::Found(_) => match parsed {
                Some(m) => if w == Waiter::Metadata {
                    r == DhtAnswer::Metadata(Some(m))
                } else {
                    r matches DhtAnswer::Search(v) && v@ == seq![m]
                },
                None => r is UnreadableMetadata,
            },
            _ => if w == Waiter::Metadata {
                r == DhtAnswer::Metadata(None)
            } else {
                r matches DhtAnswer::Search(v) && v@.len() == 0
            },
        },
        (QueryType::ModuleName { .. }, Some(Waiter::Search)) => match outcome {
            DhtOutcome::Found(value) => if vstd::utf8::valid_utf8(value@) {
                r matches DhtAnswer::LookUpMetadata(c) && utf8(c@) == value@
            } else {
                r is UnreadableCid
            },
            _ => r matches DhtAnswer::Search(v) && v@.len() == 0,
        },
        _ => r is Nothing,
    }
}

/// What to do when a DHT lookup ends (see `dht_answer_is`).
pub fn dht_answer(
    discovery: &ModuleDiscovery,
    query: &QueryType,
    outcome: DhtOutcome,
    waiter: Option<Waiter>,
    parsed: Option<ModuleMetadata>,
) -> (r: DhtAnswer)
    ensures
        dht_answer_is(r, *query, outcome, waiter, parsed),
{
    match (query, waiter) {
        (QueryType::ModuleMetadata { .. }, Some(w)) => match outcome {
            DhtOutcome::Found(_) => match parsed {
                Some(m) => match w {
                    Waiter::Metadata => DhtAnswer::Metadata(Some(m)),
                    Waiter::Search => {
                        let mut v: Vec<ModuleMetadata> = Vec::new();
                        v.push(m);
                        DhtAnswer::Search(v)
                    },
                },
                None => DhtAnswer::UnreadableMetadata,
            },
            _ => match w {
                Waiter::Metadata => DhtAnswer::Metadata(None),
                Waiter::Search => DhtAnswer::Search(Vec::new()),
            },
        },
        (QueryType::ModuleName { .. }, Some(Waiter::Search)) => match outcome {
            DhtOutcome::Found(value) => match discovery.parse_cid(value.as_slice()) {
                Ok(c) => DhtAnswer::LookUpMetadata(c),
                Err(_) => DhtAnswer::UnreadableCid,
            },
            _ => DhtAnswer::Search(Vec::new()),
        },
        _ => DhtAnswer::Nothing,
    }
}

/// The records by which a module is published: its metadata under
/// `module:<cid>`, then, for a named module, `name:<name>` and, with a
/// version, `name:<name>:<version>`, each pointing at its CID.
pub fn publication_records(publisher: &ModulePublisher, info: &ModuleInfo, metadata_value: Vec<u8>) -> (r: Vec<DhtRecord>)
    ensures
        r@.len() == 1 + (if info.name is Some { 1int + (if info.version is Some { 1int } else { 0int }) } else { 0int }),
        r@[0].key@ == utf8("module:"@ + info.cid.0@),
        r@[0].value == metadata_value,
        forall|i: int| 0 <= i < r@.len() ==> ((#[trigger] r@[i]).publisher matches Some(p) && p@ == publisher.spec_peer()),
        info.name matches Some(n) ==> (r@[1].key@ == utf8("name:"@ + n@) && r@[1].value@ == utf8(info.cid.0@)),
        info.name matches Some(n) ==> (info.version matches Some(v) ==> (r@[2].key@ == utf8(
            "name:"@ + n@ + ":"@ + v@,
        ) && r@[2].value@ == utf8(info.cid.0@))),
{
    let mut out: Vec<DhtRecord> = Vec::new();
    out.push(publisher.metadata_record(&info.cid, metadata_value));
    match &info.name {
        Some(name) => {
            out.push(publisher.create_latest_name_record(name.as_str(), &info.cid));
            match &info.version {
                Some(version) => {
                    out.push(publisher.create_name_record(name.as_str(), version.as_str(), &info.cid));
                },
                None => {},
            }
        },
        None => {},
    }
    out
}

/// Who waits on a request to a peer.
#[derive(Debug, Clone, Copy, PartialEq, Eq, Structural)]
pub enum RequestWaiter {
    /// A client fetching module bytes.
    Bytes,
    /// A client gathering search results.
    SearchResults,
}

/// What to do with a peer's response to a request.
#[derive(Debug, Clone)]
pub enum ContentAnswer {
    /// Give the bytes client the module, or tell it there is none.
    Bytes(Option<Vec<u8>>),
    /// Tell the bytes client the peer failed, with this message.
    RemoteError(String),
    /// Give the search client the peer's results.
    Search { peer: String, results: Vec<SearchResult> },
    /// Nobody waits for this response.
    Nothing,
}

/// What a peer's response calls for, given who waits: module bytes or
/// their absence and remote errors go to a bytes client, search results to
/// a search client; anything else is dropped.
pub open spec fn content_answer_is(r: ContentAnswer, response: ModuleResponse, waiter: Option<RequestWaiter>, peer: Seq<char>) -> bool {
    match (response, waiter) {
        (ModuleResponse::Module { bytes, .. }, Some(RequestWaiter::Bytes)) => r matches ContentAnswer::Bytes(Some(b)) && b@ == bytes@,
        (ModuleResponse::NotFound { .. }, Some(RequestWaiter::Bytes)) => r matches ContentAnswer::Bytes(None),
        (ModuleResponse::Error { message }, Some(RequestWaiter::Bytes)) => r matches ContentAnswer::RemoteError(m) && m@ == "Remote error: "@ + message@,
        (ModuleResponse::SearchResults { modules }, Some(RequestWaiter::SearchResults)) => r matches ContentAnswer::Search { peer: p, results } && p@ == peer && results == modules,
        _ => r is Nothing,
    }
}

/// What a peer's response calls for (see `content_answer_is`).
pub fn content_answer(response: ModuleResponse, waiter: Option<RequestWaiter>, peer: &str) -> (r: ContentAnswer)
    ensures
        content_answer_is(r, response, waiter, peer@),
{
    match (response, waiter) {
        (ModuleResponse::Module { bytes, .. }, Some(RequestWaiter::Bytes)) => ContentAnswer::Bytes(Some(bytes)),
        (ModuleResponse::NotFound { .. }, Some(RequestWaiter::Bytes)) => ContentAnswer::Bytes(None),
        (ModuleResponse::Error { message }, Some(RequestWaiter::Bytes)) => {
            let mut m = copy_string("Remote error: ");
            m.append(message.as_str());
            ContentAnswer::RemoteError(m)
        },
        (ModuleResponse::SearchResults { modules }, Some(RequestWaiter::SearchResults)) => ContentAnswer::Search {
            peer: copy_string(peer),
            results: modules,
        },
        _ => ContentAnswer::Nothing,
    }
}

/// The information a cached module is provided again with: what was kept
/// on disk for it, or else only its CID and size.
pub fn reprovide_info(cid: &ModuleCid, stored: Option<ModuleInfo>, size: usize) -> (r: ModuleInfo)
    ensures
        stored is Some ==> r == stored->0,
        stored is None ==> r.cid.0@ == cid.0@ && r.name is None && r.version is None && r.size == size
            && r.dependencies@.len() == 0 && r.author is None && r.description is None,
{
    match stored {
        Some(i) => i,
        None => ModuleInfo {
            cid: ModuleCid::new(copy_string(cid.0.as_str())),
            name: None,
            version: None,
            size,
            dependencies: Vec::new(),
            author: None,
            description: None,
        },
    }
}

/// Settings of a network node. A bootstrap peer is its peer id and its
/// address, as text.
#[derive(Debug, Clone)]
pub struct NetworkNodeConfig {
    /// TCP listening port (0 for random).
    pub tcp_port: u16,
    /// QUIC listening port (0 for random).
    pub quic_port: u16,
    /// Whether mDNS finds local peers.
    pub enable_mdns: bool,
    /// Bootstrap peers for the DHT.
    pub bootstrap_peers: Vec<(String, String)>,
    /// GossipSub topics to subscribe to.
    pub topics: Vec<String>,
}

impl Default for NetworkNodeConfig {
    /// Random ports, mDNS on, no bootstrap peers, no topics.
    fn default() -> (r: Self)
        ensures
            r.tcp_port == 0,
            r.quic_port == 0,
            r.enable_mdns,
            r.bootstrap_peers@.len() == 0,
            r.topics@.len() == 0,
    {
        NetworkNodeConfig {
            tcp_port: 0,
            quic_port: 0,
            enable_mdns: true,
            bootstrap_peers: Vec::new(),
            topics: Vec::new(),
        }
    }
}

/// The addresses a node listens on: TCP on all interfaces at the TCP port,
/// then QUIC (v1) over UDP at the QUIC port.
pub open spec fn listen_texts(tcp_port: nat, quic_port: nat) -> Seq<Seq<char>> {
    seq!["/ip4/0.0.0.0/tcp/"@ + decimal(tcp_port), "/ip4/0.0.0.0/udp/"@ + decimal(quic_port) + "/quic-v1"@]
}

/// The bootstrap peers still to dial: those whose peer id is not among the
/// connected ones, in order.
pub open spec fn peers_to_dial(peers: Seq<(Seq<char>, Seq<char>)>, connected: Seq<Seq<char>>) -> Seq<
    (Seq<char>, Seq<char>),
>
    decreases peers.len(),
{
    if peers.len() == 0 {
        Seq::empty()
    } else if connected.contains(peers.last().0) {
        peers_to_dial(peers.drop_last(), connected)
    } else {
        peers_to_dial(peers.drop_last(), connected).push(peers.last())
    }
}

impl NetworkNodeConfig {
    /// The addresses to listen on (see `listen_texts`).
    pub fn listen_addresses(&self) -> (r: Vec<String>)
        ensures
            texts_of(r@) == listen_texts(self.tcp_port as nat, self.quic_port as nat),
    {
        let tcp = decimal_chars(self.tcp_port as u64);
        let quic = decimal_chars(self.quic_port as u64);
        let mut r: Vec<String> = Vec::new();
        r.push(concat3("/ip4/0.0.0.0/tcp/", tcp.as_slice(), ""));
        r.push(concat3("/ip4/0.0.0.0/udp/", quic.as_slice(), "/quic-v1"));
        proof {
            reveal_strlit("");
            assert(texts_of(r@) =~= listen_texts(self.tcp_port as nat, self.quic_port as nat));
        }
        r
    }

    /// The bootstrap peers to dial now, given the peers connected already
    /// (see `peers_to_dial`).
    pub fn bootstrap_to_dial(&self, connected: &Vec<String>) -> (r: Vec<(String, String)>)
        ensures
            pair_views(r@) == peers_to_dial(pair_views(self.bootstrap_peers@), texts_of(connected@)),
    {
        let ghost all = pair_views(self.bootstrap_peers@);
        let mut out: Vec<(String, String)> = Vec::new();
        let mut i: usize = 0;
        while i < self.bootstrap_peers.len()
            invariant
                0 <= i <= self.bootstrap_peers@.len(),
                all == pair_views(self.bootstrap_peers@),
                pair_views(out@) == peers_to_dial(all.take(i as int), texts_of(connected@)),
            decreases self.bootstrap_peers@.len() - i,
        {
            let (peer, addr) = &self.bootstrap_peers[i];
            proof {
                assert(all.take(i + 1).drop_last() =~= all.take(i as int));
                assert(all.take(i + 1).last() == (peer@, addr@));
            }
            if !contains_text(connected, peer.as_str()) {
                let p = (copy_string(peer.as_str()), copy_string(addr.as_str()));
                proof {
                    assert(pair_views(out@.push(p)) =~= pair_views(out@).push((p.0@, p.1@)));
                }
                out.push(p);
            }
            i = i + 1;
        }
        proof {
            assert(all.take(self.bootstrap_peers@.len() as int) =~= all);
        }
        out
    }
}

} // verus!
