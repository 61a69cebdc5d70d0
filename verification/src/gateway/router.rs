//! Mapping of request paths to handlers, and the parsing of path parameters
//! and query strings.

use vstd::prelude::*;
use crate::assoc::{StringMap, assoc_view, assoc_wf, assoc_get, assoc_insert, lemma_assoc_empty};
use crate::text::{
    chars_of, split_chars, string_from_chars, chars_from, chars_take, find_char, char_views,
    seq_split, seq_find,
};
use crate::url::{spec_url_decode, url_decode};

verus! {

/// Routes from exact paths to handlers of type `H`.
pub struct Router<H> {
    routes: Vec<(String, H)>,
}

/// What a handler is given.
pub struct RouteContext {
    pub path: String,
    pub params: StringMap,
    pub query: StringMap,
}

/// What a handler returns.
pub enum RouteResult {
    /// The bytes and their content type.
    Content(Vec<u8>, String),
    Redirect(String),
    NotFound,
    Error(String),
}

impl<H> View for Router<H> {
    type V = Map<Seq<char>, H>;

    closed spec fn view(&self) -> Map<Seq<char>, H> {
        assoc_view(self.routes@)
    }
}

impl<H> Router<H> {
    #[verifier::type_invariant]
    closed spec fn wf(self) -> bool {
        assoc_wf(self.routes@)
    }

    /// A router with no routes.
    pub fn new() -> (r: Self)
        ensures
            r@ == Map::<Seq<char>, H>::empty(),
    {
        let r = Router { routes: Vec::new() };
        proof {
            lemma_assoc_empty(r.routes@);
        }
        r
    }

    /// Registers `handler` for the exact path `pattern`, replacing an
    /// earlier one.
    pub fn route(&mut self, pattern: &str, handler: H)
        ensures
            final(self)@ == old(self)@.insert(pattern@, handler),
    {
        proof {
            use_type_invariant(&*self);
        }
        let mut routes = Vec::new();
        std::mem::swap(&mut routes, &mut self.routes);
        let key = string_from_chars(chars_of(pattern).as_slice());
        assoc_insert(&mut routes, key, handler);
        self.routes = routes;
    }

    /// The handler registered for exactly `path`.
    pub fn match_route(&self, path: &str) -> (r: Option<&H>)
        ensures
            match r {
                Some(h) => self@.contains_key(path@) && *h == self@[path@],
                None => !self@.contains_key(path@),
            },
    {
        proof {
            use_type_invariant(self);
        }
        assoc_get(&self.routes, path)
    }
}

impl<H> Default for Router<H> {
    /// A router with no routes.
    fn default() -> (r: Self)
        ensures
            r@ == Map::<Seq<char>, H>::empty(),
    {
        Self::new()
    }
}

/// The parameters a pattern binds in a path, over the first `n` pattern
/// pieces: a piece `:name` binds `name` to the path piece at the same
/// position, where there is one; a later binding of a name wins.
pub open spec fn params_upto(pat: Seq<Seq<char>>, parts: Seq<Seq<char>>, n: int) -> Map<
    Seq<char>,
    Seq<char>,
>
    decreases n,
{
    if n <= 0 {
        Map::empty()
    } else {
        let m = params_upto(pat, parts, n - 1);
        let p = pat[n - 1];
        if p.len() > 0 && p[0] == ':' && n - 1 < parts.len() {
            m.insert(p.skip(1), parts[n - 1])
        } else {
            m
        }
    }
}

/// The parameters `pattern` binds in `path`.
pub open spec fn route_params(pattern: Seq<char>, path: Seq<char>) -> Map<Seq<char>, Seq<char>> {
    let pat = seq_split(pattern, '/');
    params_upto(pat, seq_split(path, '/'), pat.len() as int)
}

/// A query piece `key=value` split at its first `=`.
pub open spec fn query_pair(p: Seq<char>) -> Option<(Seq<char>, Seq<char>)> {
    let i = seq_find(p, '=');
    if i < 0 {
        None
    } else {
        Some((p.take(i), p.skip(i + 1)))
    }
}

/// The key/value pieces of a query, in order, before decoding.
pub open spec fn pairs_of(pieces: Seq<Seq<char>>) -> Seq<(Seq<char>, Seq<char>)>
    decreases pieces.len(),
{
    if pieces.len() == 0 {
        Seq::empty()
    } else {
        let r = pairs_of(pieces.drop_last());
        match query_pair(pieces.last()) {
            Some(kv) => r.push(kv),
            None => r,
        }
    }
}

/// The raw key/value pairs of a query string.
pub open spec fn raw_query_pairs(query: Seq<char>) -> Seq<(Seq<char>, Seq<char>)> {
    pairs_of(seq_split(query, '&'))
}

/// A value as stored: its URL-decoding, or empty text where that fails.
pub open spec fn decoded_or_empty(v: Seq<char>) -> Seq<char> {
    match spec_url_decode(v) {
        Ok(d) => d,
        Err(_) => Seq::empty(),
    }
}

/// The map the pairs give, a later key winning.
pub open spec fn query_map(pairs: Seq<(Seq<char>, Seq<char>)>) -> Map<Seq<char>, Seq<char>>
    decreases pairs.len(),
{
    if pairs.len() == 0 {
        Map::empty()
    } else {
        query_map(pairs.drop_last()).insert(pairs.last().0, decoded_or_empty(pairs.last().1))
    }
}

/// The views of a list of pairs of texts.
pub open spec fn pair_views(v: Seq<(String, String)>) -> Seq<(Seq<char>, Seq<char>)> {
    v.map_values(|p: (String, String)| (p.0@, p.1@))
}

impl<H> Router<H> {
    /// The parameters `pattern` binds in `path` (see `route_params`).
    pub fn parse_params(pattern: &str, path: &str) -> (r: StringMap)
        ensures
            r@ == route_params(pattern@, path@),
    {
        let pat = split_chars(chars_of(pattern).as_slice(), '/');
        let parts = split_chars(chars_of(path).as_slice(), '/');
        let ghost pv = char_views(pat@);
        let ghost qv = char_views(parts@);
        let mut params = StringMap::new();
        let mut i: usize = 0;
        while i < pat.len()
            invariant
                0 <= i <= pat@.len(),
                pv == char_views(pat@),
                qv == char_views(parts@),
                params@ == params_upto(pv, qv, i as int),
            decreases pat@.len() - i,
        {
            let part = &pat[i];
            proof {
                assert(pv[i as int] == part@);
            }
            if part.len() > 0 && part[0] == ':' && i < parts.len() {
                let key = string_from_chars(chars_from(part.as_slice(), 1).as_slice());
                let value = string_from_chars(parts[i].as_slice());
                proof {
                    assert(qv[i as int] == parts@[i as int]@);
                }
                params.insert(key, value);
            }
            i = i + 1;
        }
        params
    }

    /// The `key=value` pairs of a query string, split at `&` and at the
    /// first `=` of each piece; pieces without `=` are skipped. Values are
    /// not decoded.
    pub fn query_pairs(query: &str) -> (r: Vec<(String, String)>)
        ensures
            pair_views(r@) == raw_query_pairs(query@),
    {
        let pieces = split_chars(chars_of(query).as_slice(), '&');
        let ghost pv = char_views(pieces@);
        let mut out: Vec<(String, String)> = Vec::new();
        let mut i: usize = 0;
        while i < pieces.len()
            invariant
                0 <= i <= pieces@.len(),
                pv == char_views(pieces@),
                pair_views(out@) == pairs_of(pv.take(i as int)),
            decreases pieces@.len() - i,
        {
            let piece = &pieces[i];
            proof {
                assert(pv.take(i + 1).drop_last() =~= pv.take(i as int));
                assert(pv.take(i + 1).last() == piece@);
            }
            match find_char(piece.as_slice(), '=') {
                Some(j) => {
                    assert(j < piece.len());
                    let k = string_from_chars(chars_take(piece.as_slice(), j).as_slice());
                    let v = string_from_chars(chars_from(piece.as_slice(), j + 1).as_slice());
                    proof {
                        assert(pair_views(out@.push((k, v))) =~= pair_views(out@).push((k@, v@)));
                    }
                    out.push((k, v));
                },
                None => {},
            }
            i = i + 1;
        }
        proof {
            assert(pv.take(pieces@.len() as int) =~= pv);
        }
        out
    }

    /// The parameters of a query string: its pairs with their values
    /// URL-decoded (empty where decoding fails), a later key winning.
    pub fn parse_query(query: &str) -> (r: StringMap)
        ensures
            r@ == query_map(raw_query_pairs(query@)),
    {
        let pairs = Self::query_pairs(query);
        let ghost pv = pair_views(pairs@);
        let mut params = StringMap::new();
        let mut i: usize = 0;
        while i < pairs.len()
            invariant
                0 <= i <= pairs@.len(),
                pv == pair_views(pairs@),
                pv == raw_query_pairs(query@),
                params@ == query_map(pv.take(i as int)),
            decreases pairs@.len() - i,
        {
            let (k, v) = &pairs[i];
            let value = match url_decode(v.as_str()) {
                Ok(d) => d,
                Err(_) => String::new(),
            };
            proof {
                assert(pv.take(i + 1).drop_last() =~= pv.take(i as int));
                assert(pv.take(i + 1).last() == (k@, v@));
            }
            let key = string_from_chars(chars_of(k.as_str()).as_slice());
            params.insert(key, value);
            i = i + 1;
        }
        proof {
            assert(pv.take(pairs@.len() as int) =~= pv);
        }
        params
    }
}

} // verus!
