//! Validation of what a gateway request names: content identifiers, paths,
//! methods and file extensions.

use vstd::prelude::*;
use vstd::string::StringExecFns;
use crate::text::{
    chars_of, lit, concat3, string_from_chars, split_chars, join_chars, has_infix, has_char,
    decimal, decimal_chars, char_views, seq_split, seq_join, seq_has_infix, first_fault,
    lemma_first_fault_step, lemma_first_fault_prefix, lemma_first_fault_whole,
    lemma_first_fault_none, spec_is_alphanumeric, is_alphanumeric, rfind_char, chars_from,
    seq_rfind, str_eq, copy_chars, spec_to_lowercase, to_lowercase, opt_text,
};
use crate::url::{spec_url_decode, url_decode};

verus! {

/// Why a request was turned away by routing.
#[derive(Debug, Clone)]
pub enum RoutingError {
    InvalidCID(String),
    InvalidPath(String),
    MethodNotAllowed(String),
    InvalidEncoding(String),
}

/// The variant of a `RoutingError`, without its text.
#[derive(Debug, Clone, Copy, PartialEq, Eq, Structural)]
pub enum RoutingErrorKind {
    InvalidCID,
    InvalidPath,
    MethodNotAllowed,
    InvalidEncoding,
}

impl View for RoutingError {
    type V = (RoutingErrorKind, Seq<char>);

    open spec fn view(&self) -> (RoutingErrorKind, Seq<char>) {
        match self {
            RoutingError::InvalidCID(m) => (RoutingErrorKind::InvalidCID, m@),
            RoutingError::InvalidPath(m) => (RoutingErrorKind::InvalidPath, m@),
            RoutingError::MethodNotAllowed(m) => (RoutingErrorKind::MethodNotAllowed, m@),
            RoutingError::InvalidEncoding(m) => (RoutingErrorKind::InvalidEncoding, m@),
        }
    }
}

/// A text-producing step's outcome as a value.
pub open spec fn text_outcome(r: Result<String, RoutingError>) -> Result<Seq<char>, (RoutingErrorKind, Seq<char>)> {
    match r {
        Ok(s) => Ok(s@),
        Err(e) => Err(e@),
    }
}

/// A decoding result as a value.
pub open spec fn decoded_view(r: Result<String, String>) -> Result<Seq<char>, Seq<char>> {
    match r {
        Ok(s) => Ok(s@),
        Err(e) => Err(e@),
    }
}

/// The text shown for a routing error.
pub open spec fn routing_message(e: (RoutingErrorKind, Seq<char>)) -> Seq<char> {
    match e.0 {
        RoutingErrorKind::InvalidCID => "Invalid CID: "@ + e.1,
        RoutingErrorKind::InvalidPath => "Invalid path: "@ + e.1,
        RoutingErrorKind::MethodNotAllowed => "Method not allowed: "@ + e.1,
        RoutingErrorKind::InvalidEncoding => "Invalid URL encoding: "@ + e.1,
    }
}

impl RoutingError {
    /// The HTTP status for the error: 405 for a refused method, 400 otherwise.
    pub fn status_code(&self) -> (r: u16)
        ensures
            r == (if self@.0 == RoutingErrorKind::MethodNotAllowed { 405u16 } else { 400u16 }),
    {
        match self {
            RoutingError::MethodNotAllowed(_) => 405,
            _ => 400,
        }
    }

    /// The text shown for the error.
    pub fn message(&self) -> (r: String)
        ensures
            r@ == routing_message(self@),
    {
        let (prefix, m) = match self {
            RoutingError::InvalidCID(m) => ("Invalid CID: ", m),
            RoutingError::InvalidPath(m) => ("Invalid path: ", m),
            RoutingError::MethodNotAllowed(m) => ("Method not allowed: ", m),
            RoutingError::InvalidEncoding(m) => ("Invalid URL encoding: ", m),
        };
        let mut r = lit(prefix);
        r.append(m.as_str());
        r
    }
}

// ---------------------------------------------------------------- CIDs

/// A character of the base32 alphabet of CIDv1: `a`-`z` and `2`-`7`.
pub open spec fn is_cid_char(c: char) -> bool {
    ('a' <= c && c <= 'z') || ('2' <= c && c <= '7')
}

/// The complaint about one character of a CID, if any.
pub open spec fn cid_char_fault(c: char) -> Option<Seq<char>> {
    if is_cid_char(c) {
        None
    } else {
        Some("Invalid character '"@ + seq![c] + "' in CID (must be lowercase a-z or 2-7)"@)
    }
}

pub open spec fn cid_char_fault_fn() -> spec_fn(char) -> Option<Seq<char>> {
    |c: char| cid_char_fault(c)
}

/// The complaint about a CID of characters `s` and `nbytes` bytes, if any.
pub open spec fn cid_fault(s: Seq<char>, nbytes: int) -> Option<Seq<char>> {
    if nbytes < 30 {
        Some("CID too short (minimum 30 characters)"@)
    } else if nbytes > 100 {
        Some("CID too long (maximum 100 characters)"@)
    } else if !(s.len() > 0 && s[0] == 'b') {
        Some("CID must start with 'b' (base32 encoding)"@)
    } else {
        first_fault(s, cid_char_fault_fn())
    }
}

/// `s` has the shape of a base32 CIDv1: a leading `b`, 30 to 100 bytes, and
/// only base32 characters.
pub open spec fn looks_like_cid(s: Seq<char>, nbytes: int) -> bool {
    &&& s.len() > 0 && s[0] == 'b'
    &&& 30 <= nbytes <= 100
    &&& forall|i: int| 0 <= i < s.len() ==> is_cid_char(#[trigger] s[i])
}

/// Checks the content identifiers named in requests.
pub struct CIDValidator;

impl CIDValidator {
    /// Validates a CID: 30 to 100 bytes, a leading `b`, then base32
    /// characters; each refusal names its reason.
    pub fn validate(cid: &str) -> (r: Result<(), RoutingError>)
        ensures
            match r {
                Ok(_) => cid_fault(cid@, cid.len() as int) is None,
                Err(e) => e@.0 == RoutingErrorKind::InvalidCID && cid_fault(cid@, cid.len() as int)
                    == Some(e@.1),
            },
    {
        let n = cid.len();
        if n < 30 {
            return Err(RoutingError::InvalidCID(lit("CID too short (minimum 30 characters)")));
        }
        if n > 100 {
            return Err(RoutingError::InvalidCID(lit("CID too long (maximum 100 characters)")));
        }
        let cs = chars_of(cid);
        if !(cs.len() > 0 && cs[0] == 'b') {
            return Err(RoutingError::InvalidCID(lit("CID must start with 'b' (base32 encoding)")));
        }
        let mut i: usize = 0;
        while i < cs.len()
            invariant
                0 <= i <= cs@.len(),
                cs@ == cid@,
                n == cid.len(),
                30 <= n <= 100,
                cs@.len() > 0 && cs@[0] == 'b',
                first_fault(cs@.take(i as int), cid_char_fault_fn()) is None,
            decreases cs@.len() - i,
        {
            let c = cs[i];
            proof {
                lemma_first_fault_step(cs@, cid_char_fault_fn(), i as int);
            }
            if !(('a' <= c && c <= 'z') || ('2' <= c && c <= '7')) {
                proof {
                    lemma_first_fault_prefix(cs@, cid_char_fault_fn(), i + 1);
                }
                let one = vec![c];
                assert(one@ =~= seq![c]);
                return Err(
                    RoutingError::InvalidCID(
                        concat3(
                            "Invalid character '",
                            one.as_slice(),
                            "' in CID (must be lowercase a-z or 2-7)",
                        ),
                    ),
                );
            }
            i = i + 1;
        }
        proof {
            lemma_first_fault_whole(cs@, cid_char_fault_fn());
        }
        Ok(())
    }

    /// Whether `s` has the shape of a CID (the checks of `validate`, without
    /// the reason).
    pub fn looks_valid(s: &str) -> (r: bool)
        ensures
            r == looks_like_cid(s@, s.len() as int),
    {
        let cs = chars_of(s);
        if !(cs.len() > 0 && cs[0] == 'b' && s.len() >= 30 && s.len() <= 100) {
            return false;
        }
        let mut i: usize = 0;
        while i < cs.len()
            invariant
                0 <= i <= cs@.len(),
                cs@ == s@,
                forall|j: int| 0 <= j < i ==> is_cid_char(#[trigger] cs@[j]),
            decreases cs@.len() - i,
        {
            let c = cs[i];
            if !(('a' <= c && c <= 'z') || ('2' <= c && c <= '7')) {
                return false;
            }
            i = i + 1;
        }
        true
    }
}

/// The quick check agrees with the full validation: a text looks like a CID
/// exactly when `validate` accepts it.
pub proof fn lemma_looks_valid_iff_validates(s: Seq<char>, nbytes: int)
    ensures
        looks_like_cid(s, nbytes) <==> (cid_fault(s, nbytes) is None),
{
    lemma_first_fault_none(s, cid_char_fault_fn());
    if nbytes >= 30 && nbytes <= 100 && s.len() > 0 && s[0] == 'b' {
        if first_fault(s, cid_char_fault_fn()) is None {
            assert forall|i: int| 0 <= i < s.len() implies is_cid_char(#[trigger] s[i]) by {
                assert(cid_char_fault_fn()(s[i]) is None);
            }
        }
        if forall|i: int| 0 <= i < s.len() ==> is_cid_char(#[trigger] s[i]) {
            assert forall|i: int| 0 <= i < s.len() implies #[trigger] cid_char_fault_fn()(s[i]) is None by {
                assert(is_cid_char(s[i]));
            }
        }
    }
}

// ---------------------------------------------------------------- paths

/// A piece of a split path that is kept: not empty and not `.`.
pub open spec fn keep_component(c: Seq<char>) -> bool {
    c.len() > 0 && c != seq!['.']
}

pub open spec fn keep_component_fn() -> spec_fn(Seq<char>) -> bool {
    |c: Seq<char>| keep_component(c)
}

/// The components of a decoded path: its pieces between slashes, without
/// empty pieces and `.`.
pub open spec fn path_components(d: Seq<char>) -> Seq<Seq<char>> {
    seq_split(d, '/').filter(keep_component_fn())
}

/// A character allowed in a path component.
pub open spec fn is_path_char(c: char) -> bool {
    spec_is_alphanumeric(c) || c == '-' || c == '_' || c == '.'
}

pub open spec fn path_char_fault(c: char) -> Option<Seq<char>> {
    if is_path_char(c) {
        None
    } else {
        Some("Invalid character '"@ + seq![c] + "' in path"@)
    }
}

pub open spec fn path_char_fault_fn() -> spec_fn(char) -> Option<Seq<char>> {
    |c: char| path_char_fault(c)
}

/// The complaint about one component: a hidden name, or a character
/// that is not allowed.
pub open spec fn component_fault(c: Seq<char>) -> Option<Seq<char>> {
    if c.len() > 1 && c[0] == '.' {
        Some("Access to hidden files not allowed"@)
    } else {
        first_fault(c, path_char_fault_fn())
    }
}

pub open spec fn component_fault_fn() -> spec_fn(Seq<char>) -> Option<Seq<char>> {
    |c: Seq<char>| component_fault(c)
}

pub open spec fn pattern_fault(p: Seq<char>, pat: Seq<char>) -> Option<Seq<char>> {
    if seq_has_infix(p, pat) {
        Some("Suspicious pattern detected: "@ + pat)
    } else {
        None
    }
}

pub open spec fn pattern_fault_fn(p: Seq<char>) -> spec_fn(Seq<char>) -> Option<Seq<char>> {
    |pat: Seq<char>| pattern_fault(p, pat)
}

pub open spec fn nonempty_fn() -> spec_fn(Seq<char>) -> bool {
    |c: Seq<char>| c.len() > 0
}

/// The number of non-empty pieces between slashes.
pub open spec fn path_depth(p: Seq<char>) -> nat {
    seq_split(p, '/').filter(nonempty_fn()).len()
}

/// The complaint about a normalized path: a suspicious pattern (the first
/// in list order), or more than ten levels.
pub open spec fn security_fault(p: Seq<char>) -> Option<Seq<char>> {
    match first_fault(suspicious_patterns(), pattern_fault_fn(p)) {
        Some(m) => Some(m),
        None => if path_depth(p) > 10 {
            Some("Path depth "@ + decimal(path_depth(p)) + " exceeds maximum of 10"@)
        } else {
            None
        },
    }
}

/// What normalizing `path` gives, `decoded` being its URL-decoding.
pub open spec fn normalized_outcome(path: Seq<char>, decoded: Result<Seq<char>, Seq<char>>) -> Result<
    Seq<char>,
    (RoutingErrorKind, Seq<char>),
> {
    if path.contains('\0') {
        Err((RoutingErrorKind::InvalidPath, "Path contains null byte"@))
    } else {
        match decoded {
            Err(e) => Err((RoutingErrorKind::InvalidEncoding, "Invalid URL encoding: "@ + e)),
            Ok(d) => if seq_has_infix(d, ".."@) {
                Err((RoutingErrorKind::InvalidPath, "Directory traversal not allowed"@))
            } else {
                let cs = path_components(d);
                match first_fault(cs, component_fault_fn()) {
                    Some(m) => Err((RoutingErrorKind::InvalidPath, m)),
                    None => {
                        let n = seq_join(cs, "/"@);
                        match security_fault(n) {
                            Some(m) => Err((RoutingErrorKind::InvalidPath, m)),
                            None => Ok(n),
                        }
                    },
                }
            },
        }
    }
}

/// A character kept by `sanitize`.
pub open spec fn sanitize_keeps(c: char) -> bool {
    spec_is_alphanumeric(c) || c == '/' || c == '-' || c == '_' || c == '.'
}

pub open spec fn sanitize_keeps_fn() -> spec_fn(char) -> bool {
    |c: char| sanitize_keeps(c)
}

/// Normalizes and checks the paths named in requests.
pub struct PathSanitizer;

fn split_components(d: &[char]) -> (r: Vec<Vec<char>>)
    ensures
        char_views(r@) == path_components(d@),
{
    let parts = split_chars(d, '/');
    let mut out: Vec<Vec<char>> = Vec::new();
    let mut i: usize = 0;
    while i < parts.len()
        invariant
            0 <= i <= parts@.len(),
            char_views(out@) == char_views(parts@).take(i as int).filter(keep_component_fn()),
        decreases parts@.len() - i,
    {
        let part = &parts[i];
        let keep = part.len() > 0 && !(part.len() == 1 && part[0] == '.');
        proof {
            reveal(Seq::filter);
            let cv = char_views(parts@);
            assert(cv.take(i + 1).drop_last() =~= cv.take(i as int));
            assert(cv.take(i + 1).last() == part@);
            if part@.len() == 1 {
                assert(part@ == seq!['.'] <==> part@[0] == '.') by {
                    if part@[0] == '.' {
                        assert(part@ =~= seq!['.']);
                    }
                }
            }
            assert(keep == keep_component(part@));
        }
        if keep {
            let c = copy_chars(part.as_slice());
            proof {
                assert(char_views(out@.push(c)) =~= char_views(out@).push(c@));
            }
            out.push(c);
        }
        i = i + 1;
    }
    proof {
        assert(char_views(parts@).take(parts@.len() as int) =~= char_views(parts@));
    }
    out
}

fn component_check(c: &[char]) -> (r: Option<String>)
    ensures
        opt_text(r) == component_fault(c@),
{
    if c.len() > 1 && c[0] == '.' {
        return Some(lit("Access to hidden files not allowed"));
    }
    let mut j: usize = 0;
    while j < c.len()
        invariant
            0 <= j <= c@.len(),
            !(c@.len() > 1 && c@[0] == '.'),
            first_fault(c@.take(j as int), path_char_fault_fn()) is None,
        decreases c@.len() - j,
    {
        let ch = c[j];
        proof {
            lemma_first_fault_step(c@, path_char_fault_fn(), j as int);
        }
        if !(is_alphanumeric(ch) || ch == '-' || ch == '_' || ch == '.') {
            proof {
                lemma_first_fault_prefix(c@, path_char_fault_fn(), j + 1);
            }
            let one = vec![ch];
            assert(one@ =~= seq![ch]);
            return Some(concat3("Invalid character '", one.as_slice(), "' in path"));
        }
        j = j + 1;
    }
    proof {
        lemma_first_fault_whole(c@, path_char_fault_fn());
    }
    None
}

fn components_check(cs: &Vec<Vec<char>>) -> (r: Option<String>)
    ensures
        opt_text(r) == first_fault(char_views(cs@), component_fault_fn()),
{
    let ghost cv = char_views(cs@);
    let mut i: usize = 0;
    while i < cs.len()
        invariant
            0 <= i <= cs@.len(),
            cv == char_views(cs@),
            first_fault(cv.take(i as int), component_fault_fn()) is None,
        decreases cs@.len() - i,
    {
        proof {
            lemma_first_fault_step(cv, component_fault_fn(), i as int);
            assert(cv[i as int] == cs@[i as int]@);
        }
        match component_check(cs[i].as_slice()) {
            Some(m) => {
                proof {
                    lemma_first_fault_prefix(cv, component_fault_fn(), i + 1);
                }
                return Some(m);
            },
            None => {},
        }
        i = i + 1;
    }
    proof {
        lemma_first_fault_whole(cv, component_fault_fn());
    }
    None
}

fn depth_of(p: &[char]) -> (r: usize)
    ensures
        r == path_depth(p@),
{
    let parts = split_chars(p, '/');
    let ghost cv = char_views(parts@);
    let mut n: usize = 0;
    let mut i: usize = 0;
    while i < parts.len()
        invariant
            0 <= i <= parts@.len(),
            cv == char_views(parts@),
            n == cv.take(i as int).filter(nonempty_fn()).len(),
            n <= i,
        decreases parts@.len() - i,
    {
        proof {
            reveal(Seq::filter);
            assert(cv.take(i + 1).drop_last() =~= cv.take(i as int));
            assert(cv.take(i + 1).last() == parts@[i as int]@);
        }
        if parts[i].len() > 0 {
            n = n + 1;
        }
        i = i + 1;
    }
    proof {
        assert(cv.take(parts@.len() as int) =~= cv);
    }
    n
}

fn validate_security(p: &[char]) -> (r: Option<String>)
    ensures
        opt_text(r) == security_fault(p@),
{
    let ghost pats = suspicious_patterns();
    let mut k: usize = 0;
    while k < 16
        invariant
            0 <= k <= 16,
            pats == suspicious_patterns(),
            pats.len() == 16,
            first_fault(pats.take(k as int), pattern_fault_fn(p@)) is None,
        decreases 16 - k,
    {
        let pat = pattern_at(k);
        let pc = chars_of(pat);
        proof {
            lemma_first_fault_step(pats, pattern_fault_fn(p@), k as int);
            assert(pats[k as int] == pc@);
        }
        if has_infix(p, pc.as_slice()) {
            proof {
                lemma_first_fault_prefix(pats, pattern_fault_fn(p@), k + 1);
            }
            let mut m = lit("Suspicious pattern detected: ");
            m.append(pat);
            return Some(m);
        }
        k = k + 1;
    }
    proof {
        lemma_first_fault_whole(pats, pattern_fault_fn(p@));
    }
    let depth = depth_of(p);
    if depth > 10 {
        let digits = decimal_chars(depth as u64);
        return Some(concat3("Path depth ", digits.as_slice(), " exceeds maximum of 10"));
    }
    None
}

impl PathSanitizer {
    /// Normalizes a path: percent-decodes it, drops empty and `.` pieces and
    /// the slashes at either end; refuses a null byte, `..`, hidden names,
    /// characters other than letters, digits, `-`, `_` and `.`, suspicious
    /// patterns and more than ten levels.
    pub fn normalize(path: &str) -> (r: Result<String, RoutingError>)
        ensures
            text_outcome(r) == normalized_outcome(path@, spec_url_decode(path@)),
    {
        let decoded = url_decode(path);
        Self::normalize_decoded(path, decoded)
    }

    /// The normalization of `path` once its URL-decoding is known.
    pub fn normalize_decoded(path: &str, decoded: Result<String, String>) -> (r: Result<
        String,
        RoutingError,
    >)
        ensures
            text_outcome(r) == normalized_outcome(path@, decoded_view(decoded)),
    {
        let pc = chars_of(path);
        if has_char(pc.as_slice(), '\0') {
            return Err(RoutingError::InvalidPath(lit("Path contains null byte")));
        }
        let d = match decoded {
            Ok(d) => d,
            Err(e) => {
                let mut m = lit("Invalid URL encoding: ");
                m.append(e.as_str());
                return Err(RoutingError::InvalidEncoding(m));
            },
        };
        let dc = chars_of(d.as_str());
        let dots = chars_of("..");
        if has_infix(dc.as_slice(), dots.as_slice()) {
            return Err(RoutingError::InvalidPath(lit("Directory traversal not allowed")));
        }
        let comps = split_components(dc.as_slice());
        match components_check(&comps) {
            Some(m) => {
                return Err(RoutingError::InvalidPath(m));
            },
            None => {},
        }
        let slash = chars_of("/");
        let joined = join_chars(&comps, slash.as_slice());
        match validate_security(joined.as_slice()) {
            Some(m) => Err(RoutingError::InvalidPath(m)),
            None => Ok(string_from_chars(joined.as_slice())),
        }
    }

    /// Keeps only letters, digits, `/`, `-`, `_` and `.`.
    pub fn sanitize(path: &str) -> (r: String)
        ensures
            r@ == path@.filter(sanitize_keeps_fn()),
    {
        let pc = chars_of(path);
        let mut out: Vec<char> = Vec::new();
        let mut i: usize = 0;
        while i < pc.len()
            invariant
                0 <= i <= pc@.len(),
                pc@ == path@,
                out@ == pc@.take(i as int).filter(sanitize_keeps_fn()),
            decreases pc@.len() - i,
        {
            let c = pc[i];
            proof {
                reveal(Seq::filter);
                assert(pc@.take(i + 1).drop_last() =~= pc@.take(i as int));
                assert(pc@.take(i + 1).last() == c);
            }
            if is_alphanumeric(c) || c == '/' || c == '-' || c == '_' || c == '.' {
                out.push(c);
            }
            i = i + 1;
        }
        proof {
            assert(pc@.take(pc@.len() as int) =~= pc@);
        }
        string_from_chars(out.as_slice())
    }
}

// ---------------------------------------------------------------- methods

/// The methods a CID route accepts: reads and `OPTIONS` always, writes
/// only below the CID.
pub open spec fn cid_method_allowed(m: Seq<char>, has_path: bool) -> bool {
    ||| m == "GET"@
    ||| m == "HEAD"@
    ||| m == "OPTIONS"@
    ||| has_path && (m == "POST"@ || m == "PUT"@ || m == "DELETE"@ || m == "PATCH"@)
}

/// The methods a named application route accepts.
pub open spec fn app_method_allowed(m: Seq<char>) -> bool {
    ||| m == "GET"@
    ||| m == "POST"@
    ||| m == "PUT"@
    ||| m == "DELETE"@
    ||| m == "PATCH"@
    ||| m == "HEAD"@
    ||| m == "OPTIONS"@
}

/// Some entry of `v` holds the text `m`.
pub open spec fn lists_text(v: Seq<String>, m: Seq<char>) -> bool {
    exists|i: int| 0 <= i < v.len() && (#[trigger] v[i])@ == m
}

/// Checks request methods against route types.
pub struct MethodValidator;

impl MethodValidator {
    /// Accepts the methods of `cid_method_allowed`; refuses any other.
    pub fn validate_cid_route(method: &str, has_path: bool) -> (r: Result<(), RoutingError>)
        ensures
            match r {
                Ok(_) => cid_method_allowed(method@, has_path),
                Err(e) => !cid_method_allowed(method@, has_path) && e@ == (
                    RoutingErrorKind::MethodNotAllowed,
                    "Method "@ + method@ + " not allowed for this route type"@,
                ),
            },
    {
        let read = str_eq(method, "GET") || str_eq(method, "HEAD") || str_eq(method, "OPTIONS");
        let write = str_eq(method, "POST") || str_eq(method, "PUT") || str_eq(method, "DELETE")
            || str_eq(method, "PATCH");
        if read || (has_path && write) {
            Ok(())
        } else {
            let mc = chars_of(method);
            Err(
                RoutingError::MethodNotAllowed(
                    concat3("Method ", mc.as_slice(), " not allowed for this route type"),
                ),
            )
        }
    }

    /// Accepts the methods of `app_method_allowed`; refuses any other.
    pub fn validate_app_route(method: &str) -> (r: Result<(), RoutingError>)
        ensures
            match r {
                Ok(_) => app_method_allowed(method@),
                Err(e) => !app_method_allowed(method@) && e@ == (
                    RoutingErrorKind::MethodNotAllowed,
                    "Method "@ + method@ + " not allowed for app routes"@,
                ),
            },
    {
        if str_eq(method, "GET") || str_eq(method, "POST") || str_eq(method, "PUT") || str_eq(
            method,
            "DELETE",
        ) || str_eq(method, "PATCH") || str_eq(method, "HEAD") || str_eq(method, "OPTIONS") {
            Ok(())
        } else {
            let mc = chars_of(method);
            Err(
                RoutingError::MethodNotAllowed(
                    concat3("Method ", mc.as_slice(), " not allowed for app routes"),
                ),
            )
        }
    }

    /// The methods of a CID route, each once.
    pub fn allowed_methods_cid(has_path: bool) -> (r: Vec<String>)
        ensures
            forall|m: Seq<char>| lists_text(r@, m) <==> cid_method_allowed(m, has_path),
    {
        let mut v: Vec<String> = Vec::new();
        v.push(lit("GET"));
        v.push(lit("HEAD"));
        v.push(lit("OPTIONS"));
        if has_path {
            v.push(lit("POST"));
            v.push(lit("PUT"));
            v.push(lit("DELETE"));
            v.push(lit("PATCH"));
        }
        assert forall|m: Seq<char>| lists_text(v@, m) <==> cid_method_allowed(m, has_path) by {
            if cid_method_allowed(m, has_path) {
                if m == "GET"@ {
                    assert(v@[0]@ == m);
                } else if m == "HEAD"@ {
                    assert(v@[1]@ == m);
                } else if m == "OPTIONS"@ {
                    assert(v@[2]@ == m);
                } else if m == "POST"@ {
                    assert(v@[3]@ == m);
                } else if m == "PUT"@ {
                    assert(v@[4]@ == m);
                } else if m == "DELETE"@ {
                    assert(v@[5]@ == m);
                } else {
                    assert(v@[6]@ == m);
                }
            }
        }
        v
    }

    /// The methods of a named application route, each once.
    pub fn allowed_methods_app() -> (r: Vec<String>)
        ensures
            forall|m: Seq<char>| lists_text(r@, m) <==> app_method_allowed(m),
    {
        let mut v: Vec<String> = Vec::new();
        v.push(lit("GET"));
        v.push(lit("POST"));
        v.push(lit("PUT"));
        v.push(lit("DELETE"));
        v.push(lit("PATCH"));
        v.push(lit("HEAD"));
        v.push(lit("OPTIONS"));
        assert forall|m: Seq<char>| lists_text(v@, m) <==> app_method_allowed(m) by {
            if app_method_allowed(m) {
                if m == "GET"@ {
                    assert(v@[0]@ == m);
                } else if m == "POST"@ {
                    assert(v@[1]@ == m);
                } else if m == "PUT"@ {
                    assert(v@[2]@ == m);
                } else if m == "DELETE"@ {
                    assert(v@[3]@ == m);
                } else if m == "PATCH"@ {
                    assert(v@[4]@ == m);
                } else if m == "HEAD"@ {
                    assert(v@[5]@ == m);
                } else {
                    assert(v@[6]@ == m);
                }
            }
        }
        v
    }
}

// ---------------------------------------------------------------- extensions

/// The file extension of a path: what follows the last `.` of its last
/// segment (after the last `/`), lowercased; `None` when that segment has
/// no `.`.
pub open spec fn extension_of(p: Seq<char>) -> Option<Seq<char>> {
    let i = seq_rfind(p, '.');
    if i < 0 || i < seq_rfind(p, '/') {
        None
    } else {
        Some(spec_to_lowercase(p.skip(i + 1)))
    }
}

/// Checks file extensions of requested paths.
pub struct ExtensionValidator;

impl ExtensionValidator {
    /// The file extension of `path`, lowercased: that of its last segment,
    /// if the segment has a `.`.
    pub fn get_extension(path: &str) -> (r: Option<String>)
        ensures
            opt_text(r) == extension_of(path@),
    {
        let pc = chars_of(path);
        let slash = rfind_char(pc.as_slice(), '/');
        match rfind_char(pc.as_slice(), '.') {
            None => None,
            Some(i) => {
                match slash {
                    Some(j) => {
                        if i < j {
                            return None;
                        }
                    },
                    None => {},
                }
                assert(i < pc.len());
                let rest = chars_from(pc.as_slice(), i + 1);
                let rs = string_from_chars(rest.as_slice());
                Some(to_lowercase(rs.as_str()))
            },
        }
    }

    /// Whether `path` may be served: it has no extension, or one of
    /// `allowed_extensions`.
    pub fn is_allowed(path: &str) -> (r: bool)
        ensures
            r == match extension_of(path@) {
                None => true,
                Some(e) => allowed_extensions().contains(e),
            },
    {
        let ext = match Self::get_extension(path) {
            Some(e) => e,
            None => {
                return true;
            },
        };
        let ghost list = allowed_extensions();
        let mut k: usize = 0;
        while k < 29
            invariant
                0 <= k <= 29,
                list == allowed_extensions(),
                extension_of(path@) == Some(ext@),
                forall|j: int| 0 <= j < k ==> list[j] != ext@,
            decreases 29 - k,
        {
            if str_eq(ext.as_str(), allowed_extension_at(k)) {
                assert(list[k as int] == ext@);
                assert(list.contains(ext@));
                return true;
            }
            k = k + 1;
        }
        false
    }

    /// Whether `path` has one of `suspicious_extensions`.
    pub fn is_suspicious(path: &str) -> (r: bool)
        ensures
            r == match extension_of(path@) {
                None => false,
                Some(e) => suspicious_extensions().contains(e),
            },
    {
        let ext = match Self::get_extension(path) {
            Some(e) => e,
            None => {
                return false;
            },
        };
        let ghost list = suspicious_extensions();
        let mut k: usize = 0;
        while k < 18
            invariant
                0 <= k <= 18,
                list == suspicious_extensions(),
                extension_of(path@) == Some(ext@),
                forall|j: int| 0 <= j < k ==> list[j] != ext@,
            decreases 18 - k,
        {
            if str_eq(ext.as_str(), suspicious_extension_at(k)) {
                assert(list[k as int] == ext@);
                assert(list.contains(ext@));
                return true;
            }
            k = k + 1;
        }
        false
    }
}

/// The patterns a normalized path may not contain, by position.
pub open spec fn suspicious_pattern(k: int) -> Seq<char> {
    if k == 0 {
        "/etc/"@
    } else if k == 1 {
        "/proc/"@
    } else if k == 2 {
        "/sys/"@
    } else if k == 3 {
        "/dev/"@
    } else if k == 4 {
        "/../"@
    } else if k == 5 {
        "/./"@
    } else if k == 6 {
        "//"@
    } else if k == 7 {
        "\\\\"@
    } else if k == 8 {
        "/root/"@
    } else if k == 9 {
        "/var/"@
    } else if k == 10 {
        "/tmp/"@
    } else if k == 11 {
        "/bin/"@
    } else if k == 12 {
        "/usr/"@
    } else if k == 13 {
        "/opt/"@
    } else if k == 14 {
        "/boot/"@
    } else {
        "/home/"@
    }
}

/// The patterns a normalized path may not contain.
pub open spec fn suspicious_patterns() -> Seq<Seq<char>> {
    Seq::new(16, |k: int| suspicious_pattern(k))
}

fn pattern_at(k: usize) -> (r: &'static str)
    requires
        k < 16,
    ensures
        r@ == suspicious_pattern(k as int),
{
    if k == 0 {
        "/etc/"
    } else if k == 1 {
        "/proc/"
    } else if k == 2 {
        "/sys/"
    } else if k == 3 {
        "/dev/"
    } else if k == 4 {
        "/../"
    } else if k == 5 {
        "/./"
    } else if k == 6 {
        "//"
    } else if k == 7 {
        "\\\\"
    } else if k == 8 {
        "/root/"
    } else if k == 9 {
        "/var/"
    } else if k == 10 {
        "/tmp/"
    } else if k == 11 {
        "/bin/"
    } else if k == 12 {
        "/usr/"
    } else if k == 13 {
        "/opt/"
    } else if k == 14 {
        "/boot/"
    } else {
        "/home/"
    }
}

/// The extensions of web assets and modules that may be served, by position.
pub open spec fn allowed_extension(k: int) -> Seq<char> {
    if k == 0 {
        "html"@
    } else if k == 1 {
        "htm"@
    } else if k == 2 {
        "css"@
    } else if k == 3 {
        "js"@
    } else if k == 4 {
        "json"@
    } else if k == 5 {
        "wasm"@
    } else if k == 6 {
        "wat"@
    } else if k == 7 {
        "png"@
    } else if k == 8 {
        "jpg"@
    } else if k == 9 {
        "jpeg"@
    } else if k == 10 {
        "gif"@
    } else if k == 11 {
        "svg"@
    } else if k == 12 {
        "ico"@
    } else if k == 13 {
        "woff"@
    } else if k == 14 {
        "woff2"@
    } else if k == 15 {
        "ttf"@
    } else if k == 16 {
        "eot"@
    } else if k == 17 {
        "txt"@
    } else if k == 18 {
        "xml"@
    } else if k == 19 {
        "pdf"@
    } else if k == 20 {
        "webp"@
    } else if k == 21 {
        "mp4"@
    } else if k == 22 {
        "webm"@
    } else if k == 23 {
        "ogg"@
    } else if k == 24 {
        "mp3"@
    } else if k == 25 {
        "wav"@
    } else if k == 26 {
        "zip"@
    } else if k == 27 {
        "tar"@
    } else {
        "gz"@
    }
}

/// The extensions of web assets and modules that may be served.
pub open spec fn allowed_extensions() -> Seq<Seq<char>> {
    Seq::new(29, |k: int| allowed_extension(k))
}

fn allowed_extension_at(k: usize) -> (r: &'static str)
    requires
        k < 29,
    ensures
        r@ == allowed_extension(k as int),
{
    if k == 0 {
        "html"
    } else if k == 1 {
        "htm"
    } else if k == 2 {
        "css"
    } else if k == 3 {
        "js"
    } else if k == 4 {
        "json"
    } else if k == 5 {
        "wasm"
    } else if k == 6 {
        "wat"
    } else if k == 7 {
        "png"
    } else if k == 8 {
        "jpg"
    } else if k == 9 {
        "jpeg"
    } else if k == 10 {
        "gif"
    } else if k == 11 {
        "svg"
    } else if k == 12 {
        "ico"
    } else if k == 13 {
        "woff"
    } else if k == 14 {
        "woff2"
    } else if k == 15 {
        "ttf"
    } else if k == 16 {
        "eot"
    } else if k == 17 {
        "txt"
    } else if k == 18 {
        "xml"
    } else if k == 19 {
        "pdf"
    } else if k == 20 {
        "webp"
    } else if k == 21 {
        "mp4"
    } else if k == 22 {
        "webm"
    } else if k == 23 {
        "ogg"
    } else if k == 24 {
        "mp3"
    } else if k == 25 {
        "wav"
    } else if k == 26 {
        "zip"
    } else if k == 27 {
        "tar"
    } else {
        "gz"
    }
}

/// The extensions that are never served, by position.
pub open spec fn suspicious_extension(k: int) -> Seq<char> {
    if k == 0 {
        "php"@
    } else if k == 1 {
        "asp"@
    } else if k == 2 {
        "aspx"@
    } else if k == 3 {
        "jsp"@
    } else if k == 4 {
        "cgi"@
    } else if k == 5 {
        "pl"@
    } else if k == 6 {
        "py"@
    } else if k == 7 {
        "rb"@
    } else if k == 8 {
        "sh"@
    } else if k == 9 {
        "bash"@
    } else if k == 10 {
        "exe"@
    } else if k == 11 {
        "dll"@
    } else if k == 12 {
        "so"@
    } else if k == 13 {
        "dylib"@
    } else if k == 14 {
        "bat"@
    } else if k == 15 {
        "cmd"@
    } else if k == 16 {
        "vbs"@
    } else {
        "ps1"@
    }
}

/// The extensions that are never served.
pub open spec fn suspicious_extensions() -> Seq<Seq<char>> {
    Seq::new(18, |k: int| suspicious_extension(k))
}

spec fn ext_sig(e: Seq<char>) -> (int, char, char) {
    (e.len() as int, e[0], e[1])
}

proof fn lemma_extension_lists_apart()
    ensures
        forall|i: int, j: int|
            0 <= i < 29 && 0 <= j < 18 ==> #[trigger] allowed_extension(i) != #[trigger] suspicious_extension(j),
{
    reveal_strlit("html");
    assert(ext_sig("html"@) == (4int, 'h', 't'));
    reveal_strlit("htm");
    assert(ext_sig("htm"@) == (3int, 'h', 't'));
    reveal_strlit("css");
    assert(ext_sig("css"@) == (3int, 'c', 's'));
    reveal_strlit("js");
    assert(ext_sig("js"@) == (2int, 'j', 's'));
    reveal_strlit("json");
    assert(ext_sig("json"@) == (4int, 'j', 's'));
    reveal_strlit("wasm");
    assert(ext_sig("wasm"@) == (4int, 'w', 'a'));
    reveal_strlit("wat");
    assert(ext_sig("wat"@) == (3int, 'w', 'a'));
    reveal_strlit("png");
    assert(ext_sig("png"@) == (3int, 'p', 'n'));
    reveal_strlit("jpg");
    assert(ext_sig("jpg"@) == (3int, 'j', 'p'));
    reveal_strlit("jpeg");
    assert(ext_sig("jpeg"@) == (4int, 'j', 'p'));
    reveal_strlit("gif");
    assert(ext_sig("gif"@) == (3int, 'g', 'i'));
    reveal_strlit("svg");
    assert(ext_sig("svg"@) == (3int, 's', 'v'));
    reveal_strlit("ico");
    assert(ext_sig("ico"@) == (3int, 'i', 'c'));
    reveal_strlit("woff");
    assert(ext_sig("woff"@) == (4int, 'w', 'o'));
    reveal_strlit("woff2");
    assert(ext_sig("woff2"@) == (5int, 'w', 'o'));
    reveal_strlit("ttf");
    assert(ext_sig("ttf"@) == (3int, 't', 't'));
    reveal_strlit("eot");
    assert(ext_sig("eot"@) == (3int, 'e', 'o'));
    reveal_strlit("txt");
    assert(ext_sig("txt"@) == (3int, 't', 'x'));
    reveal_strlit("xml");
    assert(ext_sig("xml"@) == (3int, 'x', 'm'));
    reveal_strlit("pdf");
    assert(ext_sig("pdf"@) == (3int, 'p', 'd'));
    reveal_strlit("webp");
    assert(ext_sig("webp"@) == (4int, 'w', 'e'));
    reveal_strlit("mp4");
    assert(ext_sig("mp4"@) == (3int, 'm', 'p'));
    reveal_strlit("webm");
    assert(ext_sig("webm"@) == (4int, 'w', 'e'));
    reveal_strlit("ogg");
    assert(ext_sig("ogg"@) == (3int, 'o', 'g'));
    reveal_strlit("mp3");
    assert(ext_sig("mp3"@) == (3int, 'm', 'p'));
    reveal_strlit("wav");
    assert(ext_sig("wav"@) == (3int, 'w', 'a'));
    reveal_strlit("zip");
    assert(ext_sig("zip"@) == (3int, 'z', 'i'));
    reveal_strlit("tar");
    assert(ext_sig("tar"@) == (3int, 't', 'a'));
    reveal_strlit("gz");
    assert(ext_sig("gz"@) == (2int, 'g', 'z'));
    reveal_strlit("php");
    assert(ext_sig("php"@) == (3int, 'p', 'h'));
    reveal_strlit("asp");
    assert(ext_sig("asp"@) == (3int, 'a', 's'));
    reveal_strlit("aspx");
    assert(ext_sig("aspx"@) == (4int, 'a', 's'));
    reveal_strlit("jsp");
    assert(ext_sig("jsp"@) == (3int, 'j', 's'));
    reveal_strlit("cgi");
    assert(ext_sig("cgi"@) == (3int, 'c', 'g'));
    reveal_strlit("pl");
    assert(ext_sig("pl"@) == (2int, 'p', 'l'));
    reveal_strlit("py");
    assert(ext_sig("py"@) == (2int, 'p', 'y'));
    reveal_strlit("rb");
    assert(ext_sig("rb"@) == (2int, 'r', 'b'));
    reveal_strlit("sh");
    assert(ext_sig("sh"@) == (2int, 's', 'h'));
    reveal_strlit("bash");
    assert(ext_sig("bash"@) == (4int, 'b', 'a'));
    reveal_strlit("exe");
    assert(ext_sig("exe"@) == (3int, 'e', 'x'));
    reveal_strlit("dll");
    assert(ext_sig("dll"@) == (3int, 'd', 'l'));
    reveal_strlit("so");
    assert(ext_sig("so"@) == (2int, 's', 'o'));
    reveal_strlit("dylib");
    assert(ext_sig("dylib"@) == (5int, 'd', 'y'));
    reveal_strlit("bat");
    assert(ext_sig("bat"@) == (3int, 'b', 'a'));
    reveal_strlit("cmd");
    assert(ext_sig("cmd"@) == (3int, 'c', 'm'));
    reveal_strlit("vbs");
    assert(ext_sig("vbs"@) == (3int, 'v', 'b'));
    reveal_strlit("ps1");
    assert(ext_sig("ps1"@) == (3int, 'p', 's'));
    assert forall|i: int, j: int| 0 <= i < 29 && 0 <= j < 18 implies ext_sig(
        #[trigger] allowed_extension(i),
    ) != ext_sig(#[trigger] suspicious_extension(j)) by {}
}

/// No extension is both allowed and suspicious: a path that
/// `ExtensionValidator::is_suspicious` flags is never one that
/// `ExtensionValidator::is_allowed` lets through.
pub proof fn lemma_suspicious_never_allowed(p: Seq<char>)
    ensures
        extension_of(p) matches Some(e) ==> (suspicious_extensions().contains(e)
            ==> !allowed_extensions().contains(e)),
{
    lemma_extension_lists_apart();
    if let Some(e) = extension_of(p) {
        if suspicious_extensions().contains(e) && allowed_extensions().contains(e) {
            let j = choose|j: int| 0 <= j < 18 && suspicious_extensions()[j] == e;
            let i = choose|i: int| 0 <= i < 29 && allowed_extensions()[i] == e;
            assert(allowed_extension(i) != suspicious_extension(j));
        }
    }
}

fn suspicious_extension_at(k: usize) -> (r: &'static str)
    requires
        k < 18,
    ensures
        r@ == suspicious_extension(k as int),
{
    if k == 0 {
        "php"
    } else if k == 1 {
        "asp"
    } else if k == 2 {
        "aspx"
    } else if k == 3 {
        "jsp"
    } else if k == 4 {
        "cgi"
    } else if k == 5 {
        "pl"
    } else if k == 6 {
        "py"
    } else if k == 7 {
        "rb"
    } else if k == 8 {
        "sh"
    } else if k == 9 {
        "bash"
    } else if k == 10 {
        "exe"
    } else if k == 11 {
        "dll"
    } else if k == 12 {
        "so"
    } else if k == 13 {
        "dylib"
    } else if k == 14 {
        "bat"
    } else if k == 15 {
        "cmd"
    } else if k == 16 {
        "vbs"
    } else {
        "ps1"
    }
}

/// The extensions served are exactly HTML, CSS, JavaScript, JSON,
/// WebAssembly (binary and text), the common image, font, media, text,
/// XML, PDF and archive types.
pub proof fn lemma_served_extension_list(e: Seq<char>)
    ensures
        allowed_extensions().contains(e) <==> (e == "html"@ || e == "htm"@ || e == "css"@ || e == "js"@ || e == "json"@ || e == "wasm"@ || e == "wat"@ || e == "png"@ || e == "jpg"@ || e == "jpeg"@ || e == "gif"@ || e == "svg"@ || e == "ico"@ || e == "woff"@ || e == "woff2"@ || e == "ttf"@ || e == "eot"@ || e == "txt"@ || e == "xml"@ || e == "pdf"@ || e == "webp"@ || e == "mp4"@ || e == "webm"@ || e == "ogg"@ || e == "mp3"@ || e == "wav"@ || e == "zip"@ || e == "tar"@ || e == "gz"@),
{
    assert(allowed_extensions()[0] == "html"@);
    assert(allowed_extensions()[1] == "htm"@);
    assert(allowed_extensions()[2] == "css"@);
    assert(allowed_extensions()[3] == "js"@);
    assert(allowed_extensions()[4] == "json"@);
    assert(allowed_extensions()[5] == "wasm"@);
    assert(allowed_extensions()[6] == "wat"@);
    assert(allowed_extensions()[7] == "png"@);
    assert(allowed_extensions()[8] == "jpg"@);
    assert(allowed_extensions()[9] == "jpeg"@);
    assert(allowed_extensions()[10] == "gif"@);
    assert(allowed_extensions()[11] == "svg"@);
    assert(allowed_extensions()[12] == "ico"@);
    assert(allowed_extensions()[13] == "woff"@);
    assert(allowed_extensions()[14] == "woff2"@);
    assert(allowed_extensions()[15] == "ttf"@);
    assert(allowed_extensions()[16] == "eot"@);
    assert(allowed_extensions()[17] == "txt"@);
    assert(allowed_extensions()[18] == "xml"@);
    assert(allowed_extensions()[19] == "pdf"@);
    assert(allowed_extensions()[20] == "webp"@);
    assert(allowed_extensions()[21] == "mp4"@);
    assert(allowed_extensions()[22] == "webm"@);
    assert(allowed_extensions()[23] == "ogg"@);
    assert(allowed_extensions()[24] == "mp3"@);
    assert(allowed_extensions()[25] == "wav"@);
    assert(allowed_extensions()[26] == "zip"@);
    assert(allowed_extensions()[27] == "tar"@);
    assert(allowed_extensions()[28] == "gz"@);
}

/// The extensions never served are exactly those of server-side scripts,
/// shell scripts and native executables and libraries.
pub proof fn lemma_refused_extension_list(e: Seq<char>)
    ensures
        suspicious_extensions().contains(e) <==> (e == "php"@ || e == "asp"@ || e == "aspx"@ || e == "jsp"@ || e == "cgi"@ || e == "pl"@ || e == "py"@ || e == "rb"@ || e == "sh"@ || e == "bash"@ || e == "exe"@ || e == "dll"@ || e == "so"@ || e == "dylib"@ || e == "bat"@ || e == "cmd"@ || e == "vbs"@ || e == "ps1"@),
{
    assert(suspicious_extensions()[0] == "php"@);
    assert(suspicious_extensions()[1] == "asp"@);
    assert(suspicious_extensions()[2] == "aspx"@);
    assert(suspicious_extensions()[3] == "jsp"@);
    assert(suspicious_extensions()[4] == "cgi"@);
    assert(suspicious_extensions()[5] == "pl"@);
    assert(suspicious_extensions()[6] == "py"@);
    assert(suspicious_extensions()[7] == "rb"@);
    assert(suspicious_extensions()[8] == "sh"@);
    assert(suspicious_extensions()[9] == "bash"@);
    assert(suspicious_extensions()[10] == "exe"@);
    assert(suspicious_extensions()[11] == "dll"@);
    assert(suspicious_extensions()[12] == "so"@);
    assert(suspicious_extensions()[13] == "dylib"@);
    assert(suspicious_extensions()[14] == "bat"@);
    assert(suspicious_extensions()[15] == "cmd"@);
    assert(suspicious_extensions()[16] == "vbs"@);
    assert(suspicious_extensions()[17] == "ps1"@);
}

proof fn lemma_no_fault<A>(s: Seq<A>, f: spec_fn(A) -> Option<Seq<char>>)
    ensures
        first_fault(s, f) is None <==> forall|i: int| 0 <= i < s.len() ==> (#[trigger] f(s[i])) is None,
    decreases s.len(),
{
    if s.len() > 0 {
        lemma_no_fault(s.drop_last(), f);
        assert forall|i: int| 0 <= i < s.len() - 1 implies s.drop_last()[i] == s[i] by {}
        if first_fault(s, f) is None {
            assert forall|i: int| 0 <= i < s.len() implies (#[trigger] f(s[i])) is None by {
                if i < s.len() - 1 {
                    assert(f(s.drop_last()[i]) is None);
                }
            }
        } else if first_fault(s.drop_last(), f) is Some {
            let i = choose|i: int| 0 <= i < s.len() - 1 && (#[trigger] f(s.drop_last()[i])) is Some;
            assert(f(s[i]) is Some);
        } else {
            assert(f(s[s.len() - 1]) is Some);
        }
    }
}

/// A normalized path that reaches into a system directory (`/etc/`,
/// `/proc/`, `/sys/`, `/dev/`, `/root/`, `/var/`, `/tmp/`, `/bin/`,
/// `/usr/`, `/opt/`, `/boot/`, `/home/`), that holds `/../`, `/./`, `//`
/// or a doubled backslash, is refused; one with none of these and at most
/// ten levels is not.
pub proof fn lemma_refused_path_patterns(p: Seq<char>)
    ensures
        (seq_has_infix(p, "/etc/"@) || seq_has_infix(p, "/proc/"@) || seq_has_infix(p, "/sys/"@) || seq_has_infix(p, "/dev/"@) || seq_has_infix(p, "/../"@) || seq_has_infix(p, "/./"@) || seq_has_infix(p, "//"@) || seq_has_infix(p, "\\\\"@) || seq_has_infix(p, "/root/"@) || seq_has_infix(p, "/var/"@) || seq_has_infix(p, "/tmp/"@) || seq_has_infix(p, "/bin/"@) || seq_has_infix(p, "/usr/"@) || seq_has_infix(p, "/opt/"@) || seq_has_infix(p, "/boot/"@) || seq_has_infix(p, "/home/"@)) ==> security_fault(p) is Some,
        !(seq_has_infix(p, "/etc/"@) || seq_has_infix(p, "/proc/"@) || seq_has_infix(p, "/sys/"@) || seq_has_infix(p, "/dev/"@) || seq_has_infix(p, "/../"@) || seq_has_infix(p, "/./"@) || seq_has_infix(p, "//"@) || seq_has_infix(p, "\\\\"@) || seq_has_infix(p, "/root/"@) || seq_has_infix(p, "/var/"@) || seq_has_infix(p, "/tmp/"@) || seq_has_infix(p, "/bin/"@) || seq_has_infix(p, "/usr/"@) || seq_has_infix(p, "/opt/"@) || seq_has_infix(p, "/boot/"@) || seq_has_infix(p, "/home/"@)) && path_depth(p) <= 10 ==> security_fault(p) is None,
{
    assert(suspicious_patterns()[0] == "/etc/"@);
    assert(suspicious_patterns()[1] == "/proc/"@);
    assert(suspicious_patterns()[2] == "/sys/"@);
    assert(suspicious_patterns()[3] == "/dev/"@);
    assert(suspicious_patterns()[4] == "/../"@);
    assert(suspicious_patterns()[5] == "/./"@);
    assert(suspicious_patterns()[6] == "//"@);
    assert(suspicious_patterns()[7] == "\\\\"@);
    assert(suspicious_patterns()[8] == "/root/"@);
    assert(suspicious_patterns()[9] == "/var/"@);
    assert(suspicious_patterns()[10] == "/tmp/"@);
    assert(suspicious_patterns()[11] == "/bin/"@);
    assert(suspicious_patterns()[12] == "/usr/"@);
    assert(suspicious_patterns()[13] == "/opt/"@);
    assert(suspicious_patterns()[14] == "/boot/"@);
    assert(suspicious_patterns()[15] == "/home/"@);
    lemma_no_fault(suspicious_patterns(), pattern_fault_fn(p));
    assert(pattern_fault_fn(p)(suspicious_patterns()[0]) == pattern_fault(p, suspicious_patterns()[0]));
    assert(pattern_fault_fn(p)(suspicious_patterns()[1]) == pattern_fault(p, suspicious_patterns()[1]));
    assert(pattern_fault_fn(p)(suspicious_patterns()[2]) == pattern_fault(p, suspicious_patterns()[2]));
    assert(pattern_fault_fn(p)(suspicious_patterns()[3]) == pattern_fault(p, suspicious_patterns()[3]));
    assert(pattern_fault_fn(p)(suspicious_patterns()[4]) == pattern_fault(p, suspicious_patterns()[4]));
    assert(pattern_fault_fn(p)(suspicious_patterns()[5]) == pattern_fault(p, suspicious_patterns()[5]));
    assert(pattern_fault_fn(p)(suspicious_patterns()[6]) == pattern_fault(p, suspicious_patterns()[6]));
    assert(pattern_fault_fn(p)(suspicious_patterns()[7]) == pattern_fault(p, suspicious_patterns()[7]));
    assert(pattern_fault_fn(p)(suspicious_patterns()[8]) == pattern_fault(p, suspicious_patterns()[8]));
    assert(pattern_fault_fn(p)(suspicious_patterns()[9]) == pattern_fault(p, suspicious_patterns()[9]));
    assert(pattern_fault_fn(p)(suspicious_patterns()[10]) == pattern_fault(p, suspicious_patterns()[10]));
    assert(pattern_fault_fn(p)(suspicious_patterns()[11]) == pattern_fault(p, suspicious_patterns()[11]));
    assert(pattern_fault_fn(p)(suspicious_patterns()[12]) == pattern_fault(p, suspicious_patterns()[12]));
    assert(pattern_fault_fn(p)(suspicious_patterns()[13]) == pattern_fault(p, suspicious_patterns()[13]));
    assert(pattern_fault_fn(p)(suspicious_patterns()[14]) == pattern_fault(p, suspicious_patterns()[14]));
    assert(pattern_fault_fn(p)(suspicious_patterns()[15]) == pattern_fault(p, suspicious_patterns()[15]));
}

/// A named application route accepts exactly GET, POST, PUT, DELETE, PATCH,
/// HEAD and OPTIONS; a content route accepts the same when it names a path
/// inside the module, and only the reading methods GET, HEAD and OPTIONS
/// when it names the module alone.
pub proof fn lemma_route_methods(m: Seq<char>)
    ensures
        app_method_allowed(m) <==> (m == "GET"@ || m == "POST"@ || m == "PUT"@ || m == "DELETE"@
            || m == "PATCH"@ || m == "HEAD"@ || m == "OPTIONS"@),
        cid_method_allowed(m, true) == app_method_allowed(m),
        cid_method_allowed(m, false) <==> (m == "GET"@ || m == "HEAD"@ || m == "OPTIONS"@),
{
}

} // verus!
