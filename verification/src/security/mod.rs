//! Request hardening for the gateway: limits, request validation,
//! connection tracking and security headers.

use vstd::prelude::*;
use vstd::string::StringExecFns;
use std::collections::HashMap;
use crate::text::{
    chars_of, lit, has_char, has_infix, seq_has_infix, split_chars, chars_from, seq_split,
    rfind_char, seq_rfind, str_eq, to_lowercase, spec_to_lowercase, ascii_lower, decimal,
    decimal_chars, concat3, string_from_chars, utf8,
};
use crate::gateway::routing::{sanitize_keeps_fn, PathSanitizer};

verus! {

broadcast use vstd::std_specs::hash::group_hash_axioms;

/// HTTP status: bad request.
pub const BAD_REQUEST: u16 = 400;
/// HTTP status: forbidden.
pub const FORBIDDEN: u16 = 403;
/// HTTP status: too many requests.
pub const TOO_MANY_REQUESTS: u16 = 429;
/// HTTP status: request header fields too large.
pub const HEADER_FIELDS_TOO_LARGE: u16 = 431;
/// HTTP status: service unavailable.
pub const SERVICE_UNAVAILABLE: u16 = 503;

/// Security settings of the gateway.
#[derive(Debug, Clone)]
pub struct SecurityConfig {
    /// Maximum request body size in bytes
    pub max_request_body_size: usize,
    /// Maximum total size of request headers in bytes
    pub max_header_size: usize,
    /// Requests per minute per address
    pub rate_limit_per_minute: u32,
    /// Burst size of the rate limit
    pub rate_limit_burst: u32,
    /// Concurrent connections per address
    pub max_connections_per_ip: usize,
    /// Concurrent requests in all
    pub max_concurrent_requests: usize,
    /// Request timeout in seconds
    pub request_timeout_secs: u64,
    /// Whether to send HSTS
    pub enable_hsts: bool,
    /// HSTS max-age in seconds
    pub hsts_max_age: u64,
    /// Whether to send a strict content security policy
    pub enable_strict_csp: bool,
    /// Allowed CORS origins (empty: no CORS)
    pub cors_allowed_origins: Vec<String>,
    /// Whether to refuse the user agents of known scanners
    pub block_suspicious_user_agents: bool,
    /// Maximum path depth
    pub max_path_depth: usize,
    /// File extensions served as static files
    pub allowed_extensions: Vec<String>,
}

/// The texts of a list of strings.
pub open spec fn text_list(v: Seq<String>) -> Seq<Seq<char>> {
    v.map_values(|s: String| s@)
}

impl Default for SecurityConfig {
    /// 16 MiB bodies, 8 KiB headers, 60 requests a minute with bursts of
    /// 10, 100 connections per address, 10 000 in all, 30 s timeout, HSTS
    /// for a year, strict CSP, no CORS, scanners refused, depth 10, and the
    /// `default_extensions`.
    fn default() -> (r: Self)
        ensures
            r.max_request_body_size == 16 * 1024 * 1024,
            r.max_header_size == 8 * 1024,
            r.rate_limit_per_minute == 60,
            r.rate_limit_burst == 10,
            r.max_connections_per_ip == 100,
            r.max_concurrent_requests == 10000,
            r.request_timeout_secs == 30,
            r.enable_hsts,
            r.hsts_max_age == 31536000,
            r.enable_strict_csp,
            r.cors_allowed_origins@.len() == 0,
            r.block_suspicious_user_agents,
            r.max_path_depth == 10,
            text_list(r.allowed_extensions@) == default_extensions(),
    {
        let mut allowed: Vec<String> = Vec::new();
        let mut k: usize = 0;
        while k < 17
            invariant
                0 <= k <= 17,
                text_list(allowed@) == default_extensions().take(k as int),
            decreases 17 - k,
        {
            let e = lit(default_extension_at(k));
            proof {
                assert(default_extensions()[k as int] == e@);
                assert(text_list(allowed@.push(e)) =~= text_list(allowed@).push(e@));
                assert(default_extensions().take(k + 1) =~= default_extensions().take(k as int).push(e@));
            }
            allowed.push(e);
            k = k + 1;
        }
        assert(default_extensions().take(17) =~= default_extensions());
        SecurityConfig {
            max_request_body_size: 16 * 1024 * 1024,
            max_header_size: 8 * 1024,
            rate_limit_per_minute: 60,
            rate_limit_burst: 10,
            max_connections_per_ip: 100,
            max_concurrent_requests: 10000,
            request_timeout_secs: 30,
            enable_hsts: true,
            hsts_max_age: 31536000,
            enable_strict_csp: true,
            cors_allowed_origins: Vec::new(),
            block_suspicious_user_agents: true,
            max_path_depth: 10,
            allowed_extensions: allowed,
        }
    }
}

// ---------------------------------------------------------------- connections

/// A connection tracker's state: connections per address, and in all.
pub type TrackerState = (Map<u128, usize>, usize);

/// The connections of `ip`.
pub open spec fn connection_count(s: TrackerState, ip: u128) -> usize {
    if s.0.contains_key(ip) {
        s.0[ip]
    } else {
        0
    }
}

/// Registering a connection from `ip`: refused with 503 when `max_total`
/// connections are open, with 429 when `ip` has `max_per_ip` (an entry for
/// `ip` is made either way), else counted.
pub open spec fn register_step(s: TrackerState, ip: u128, max_per_ip: usize, max_total: usize) -> (
    TrackerState,
    Result<(), u16>,
) {
    if s.1 >= max_total {
        (s, Err(SERVICE_UNAVAILABLE))
    } else {
        let c = connection_count(s, ip);
        if c >= max_per_ip {
            ((s.0.insert(ip, c), s.1), Err(TOO_MANY_REQUESTS))
        } else {
            ((s.0.insert(ip, (c + 1) as usize), (s.1 + 1) as usize), Ok(()))
        }
    }
}

/// Unregistering a connection from `ip`: one less for `ip` (the entry goes
/// at zero) and one less in all, never below zero.
pub open spec fn unregister_step(s: TrackerState, ip: u128) -> TrackerState {
    let m = if s.0.contains_key(ip) {
        let c = if s.0[ip] > 0 { (s.0[ip] - 1) as usize } else { 0usize };
        if c == 0 {
            s.0.remove(ip)
        } else {
            s.0.insert(ip, c)
        }
    } else {
        s.0
    };
    (m, if s.1 > 0 { (s.1 - 1) as usize } else { 0usize })
}

/// Counts open connections per address, to bound them.
pub struct ConnectionTracker {
    connections: HashMap<u128, usize>,
    total_connections: usize,
    config: SecurityConfig,
}

impl View for ConnectionTracker {
    type V = TrackerState;

    closed spec fn view(&self) -> TrackerState {
        (self.connections@, self.total_connections)
    }
}

impl ConnectionTracker {
    /// The settings in force.
    pub closed spec fn spec_config(&self) -> SecurityConfig {
        self.config
    }

    /// A tracker with no connections.
    pub fn new(config: SecurityConfig) -> (r: Self)
        ensures
            r@.0 == Map::<u128, usize>::empty(),
            r@.1 == 0,
            r.spec_config() == config,
    {
        ConnectionTracker { connections: HashMap::new(), total_connections: 0, config }
    }

    /// Registers a connection from `ip` (see `register_step`).
    pub fn register_connection(&mut self, ip: u128) -> (r: Result<(), u16>)
        ensures
            (final(self)@, r) == register_step(
                old(self)@,
                ip,
                old(self).spec_config().max_connections_per_ip,
                old(self).spec_config().max_concurrent_requests,
            ),
            final(self).spec_config() == old(self).spec_config(),
    {
        if self.total_connections >= self.config.max_concurrent_requests {
            return Err(SERVICE_UNAVAILABLE);
        }
        let count: usize = match self.connections.get(&ip) {
            Some(c) => *c,
            None => 0,
        };
        if count >= self.config.max_connections_per_ip {
            self.connections.insert(ip, count);
            return Err(TOO_MANY_REQUESTS);
        }
        self.connections.insert(ip, count + 1);
        self.total_connections = self.total_connections + 1;
        Ok(())
    }

    /// Unregisters a connection from `ip` (see `unregister_step`).
    pub fn unregister_connection(&mut self, ip: u128)
        ensures
            final(self)@ == unregister_step(old(self)@, ip),
            final(self).spec_config() == old(self).spec_config(),
    {
        match self.connections.get(&ip) {
            Some(c) => {
                let n = c.saturating_sub(1);
                if n == 0 {
                    self.connections.remove(&ip);
                } else {
                    self.connections.insert(ip, n);
                }
            },
            None => {},
        }
        self.total_connections = self.total_connections.saturating_sub(1);
    }

    /// The open connections of `ip`.
    pub fn get_connection_count(&self, ip: u128) -> (r: usize)
        ensures
            r == connection_count(self@, ip),
    {
        match self.connections.get(&ip) {
            Some(c) => *c,
            None => 0,
        }
    }

    /// The open connections in all.
    pub fn get_total_connections(&self) -> (r: usize)
        ensures
            r == self@.1,
    {
        self.total_connections
    }
}

/// A connection that was let in and then closed leaves the counts of every
/// address, and the total, as they were.
pub proof fn lemma_register_unregister(s: TrackerState, ip: u128, other: u128, max_per_ip: usize, max_total: usize)
    requires
        register_step(s, ip, max_per_ip, max_total).1 is Ok,
    ensures
        connection_count(unregister_step(register_step(s, ip, max_per_ip, max_total).0, ip), other)
            == connection_count(s, other),
        unregister_step(register_step(s, ip, max_per_ip, max_total).0, ip).1 == s.1,
{
}

/// A refused connection leaves every count and the total unchanged.
pub proof fn lemma_refused_register_unchanged(s: TrackerState, ip: u128, other: u128, max_per_ip: usize, max_total: usize)
    requires
        register_step(s, ip, max_per_ip, max_total).1 is Err,
    ensures
        connection_count(register_step(s, ip, max_per_ip, max_total).0, other) == connection_count(s, other),
        register_step(s, ip, max_per_ip, max_total).0.1 == s.1,
{
}

/// No address is let in beyond its limit: after a successful registration
/// the address has at most `max_per_ip` connections, and the total is at
/// most `max_total`.
pub proof fn lemma_register_within_limits(s: TrackerState, ip: u128, max_per_ip: usize, max_total: usize)
    requires
        register_step(s, ip, max_per_ip, max_total).1 is Ok,
    ensures
        connection_count(register_step(s, ip, max_per_ip, max_total).0, ip) <= max_per_ip,
        register_step(s, ip, max_per_ip, max_total).0.1 <= max_total,
{
}

// ---------------------------------------------------------------- requests

/// `s` without its leading `c`s.
pub open spec fn trim_leading(s: Seq<char>, c: char) -> Seq<char>
    decreases s.len(),
{
    if s.len() > 0 && s[0] == c {
        trim_leading(s.drop_first(), c)
    } else {
        s
    }
}

/// The depth of a request path: its pieces between slashes, after the
/// leading slashes.
pub open spec fn request_depth(path: Seq<char>) -> nat {
    seq_split(trim_leading(path, '/'), '/').len()
}

/// Some pattern of `request_patterns` occurs in `path`.
pub open spec fn has_request_pattern(path: Seq<char>) -> bool {
    exists|k: int| 0 <= k < request_patterns().len() && seq_has_infix(path, #[trigger] request_patterns()[k])
}

/// What validating a request path gives: 400 for a null byte, 403 for
/// `..`, 400 beyond `max_depth` levels, 403 for a suspicious pattern.
pub open spec fn path_verdict(path: Seq<char>, max_depth: usize) -> Result<(), u16> {
    if path.contains('\0') {
        Err(BAD_REQUEST)
    } else if seq_has_infix(path, ".."@) {
        Err(FORBIDDEN)
    } else if request_depth(path) > max_depth {
        Err(BAD_REQUEST)
    } else if has_request_pattern(path) {
        Err(FORBIDDEN)
    } else {
        Ok(())
    }
}

/// What validating the extension of a path gives: paths without `.` pass;
/// otherwise what follows the last `.`, lowercased, must be allowed.
pub open spec fn extension_verdict(path: Seq<char>, allowed: Seq<Seq<char>>) -> Result<(), u16> {
    if !path.contains('.') {
        Ok(())
    } else if allowed.contains(spec_to_lowercase(path.skip(seq_rfind(path, '.') + 1))) {
        Ok(())
    } else {
        Err(FORBIDDEN)
    }
}

/// A byte that may stand in a header value read as text: visible ASCII or
/// tab.
pub open spec fn visible_ascii(b: u8) -> bool {
    (32 <= b && b < 127) || b == 9
}

/// A header value read as text: its bytes as characters, if all are visible
/// ASCII.
pub open spec fn header_text(v: Seq<u8>) -> Option<Seq<char>> {
    if forall|i: int| 0 <= i < v.len() ==> visible_ascii(#[trigger] v[i]) {
        Some(v.map_values(|b: u8| b as char))
    } else {
        None
    }
}

/// The size of a header list: the bytes of every name and value.
pub open spec fn header_total(h: Seq<(String, Vec<u8>)>) -> nat
    decreases h.len(),
{
    if h.len() == 0 {
        0
    } else {
        header_total(h.drop_last()) + vstd::utf8::encode_utf8(h.last().0@).len() + h.last().1@.len()
    }
}

/// The value of the first header named `name`.
pub open spec fn first_header(h: Seq<(String, Vec<u8>)>, name: Seq<char>) -> Option<Seq<u8>> {
    if exists|i: int| 0 <= i < h.len() && (#[trigger] h[i]).0@ == name {
        let i = choose|i: int|
            0 <= i < h.len() && (#[trigger] h[i]).0@ == name && forall|j: int|
                0 <= j < i ==> (#[trigger] h[j]).0@ != name;
        Some(h[i].1@)
    } else {
        None
    }
}

/// A user agent, lowercased, that names a known scanner.
pub open spec fn is_scanner(ua: Seq<char>) -> bool {
    exists|k: int| 0 <= k < scanner_agents().len() && seq_has_infix(ua, #[trigger] scanner_agents()[k])
}

/// The user agent header is text naming a known scanner.
pub open spec fn scanner_request(h: Seq<(String, Vec<u8>)>) -> bool {
    match first_header(h, "user-agent"@) {
        Some(v) => match header_text(v) {
            Some(ua) => is_scanner(spec_to_lowercase(ua)),
            None => false,
        },
        None => false,
    }
}

/// Some header value is text with a line break.
pub open spec fn injected(h: Seq<(String, Vec<u8>)>) -> bool {
    exists|i: int|
        0 <= i < h.len() && match header_text((#[trigger] h[i]).1@) {
            Some(t) => t.contains('\r') || t.contains('\n'),
            None => false,
        }
}

/// What validating headers gives: 431 beyond the size limit, 403 for a
/// scanner's user agent (when those are refused), 400 for a line break in
/// a value.
pub open spec fn headers_verdict(h: Seq<(String, Vec<u8>)>, max_size: usize, block_scanners: bool) -> Result<(), u16> {
    if header_total(h) > max_size {
        Err(HEADER_FIELDS_TOO_LARGE)
    } else if block_scanners && scanner_request(h) {
        Err(FORBIDDEN)
    } else if injected(h) {
        Err(BAD_REQUEST)
    } else {
        Ok(())
    }
}

/// Checks requests against the security settings.
pub struct RequestValidator {
    config: SecurityConfig,
}

proof fn lemma_header_total_prefix(h: Seq<(String, Vec<u8>)>, k: int)
    requires
        0 <= k <= h.len(),
    ensures
        header_total(h.take(k)) <= header_total(h),
    decreases h.len() - k,
{
    if k < h.len() {
        lemma_header_total_prefix(h, k + 1);
        assert(h.take(k + 1).drop_last() =~= h.take(k));
    } else {
        assert(h.take(k) =~= h);
    }
}

fn header_as_text(v: &Vec<u8>) -> (r: Option<Vec<char>>)
    ensures
        match r {
            Some(t) => header_text(v@) == Some(t@),
            None => header_text(v@) is None,
        },
{
    let mut out: Vec<char> = Vec::new();
    let mut i: usize = 0;
    while i < v.len()
        invariant
            0 <= i <= v@.len(),
            out@ == v@.take(i as int).map_values(|b: u8| b as char),
            forall|j: int| 0 <= j < i ==> visible_ascii(#[trigger] v@[j]),
        decreases v@.len() - i,
    {
        let b = v[i];
        if !((32 <= b && b < 127) || b == 9) {
            return None;
        }
        let c = b as char;
        proof {
            assert(v@.take(i + 1).map_values(|b: u8| b as char) =~= out@.push(c));
        }
        out.push(c);
        i = i + 1;
    }
    proof {
        assert(v@.take(v@.len() as int) =~= v@);
    }
    Some(out)
}

impl RequestValidator {
    /// The settings in force.
    pub closed spec fn spec_config(&self) -> SecurityConfig {
        self.config
    }

    /// A validator for the given settings.
    pub fn new(config: SecurityConfig) -> (r: Self)
        ensures
            r.spec_config() == config,
    {
        RequestValidator { config }
    }

    /// Validates a request path (see `path_verdict`).
    pub fn validate_path(&self, path: &str) -> (r: Result<(), u16>)
        ensures
            r == path_verdict(path@, self.spec_config().max_path_depth),
    {
        let p = chars_of(path);
        if has_char(p.as_slice(), '\0') {
            return Err(BAD_REQUEST);
        }
        let dots = chars_of("..");
        if has_infix(p.as_slice(), dots.as_slice()) {
            return Err(FORBIDDEN);
        }
        let mut start: usize = 0;
        assert(p@.skip(0) =~= p@);
        while start < p.len() && p[start] == '/'
            invariant
                0 <= start <= p@.len(),
                trim_leading(p@.skip(start as int), '/') == trim_leading(p@, '/'),
            decreases p@.len() - start,
        {
            proof {
                assert(p@.skip(start as int).drop_first() =~= p@.skip(start + 1));
            }
            start = start + 1;
        }
        let rest = chars_from(p.as_slice(), start);
        proof {
            assert(trim_leading(p@.skip(start as int), '/') == p@.skip(start as int));
        }
        let pieces = split_chars(rest.as_slice(), '/');
        proof {
            assert(pieces@.len() == crate::text::char_views(pieces@).len());
            assert(pieces@.len() == request_depth(path@));
        }
        if pieces.len() > self.config.max_path_depth {
            return Err(BAD_REQUEST);
        }
        let mut k: usize = 0;
        while k < 8
            invariant
                0 <= k <= 8,
                p@ == path@,
                !path@.contains('\0'),
                !seq_has_infix(path@, ".."@),
                request_depth(path@) <= self.spec_config().max_path_depth,
                forall|j: int| 0 <= j < k ==> !seq_has_infix(p@, #[trigger] request_patterns()[j]),
            decreases 8 - k,
        {
            let pat = chars_of(request_pattern_at(k));
            proof {
                assert(request_patterns()[k as int] == pat@);
            }
            if has_infix(p.as_slice(), pat.as_slice()) {
                proof {
                    assert(seq_has_infix(path@, request_patterns()[k as int]));
                }
                return Err(FORBIDDEN);
            }
            k = k + 1;
        }
        Ok(())
    }

    /// Validates the extension of a path against the allowed ones (see
    /// `extension_verdict`).
    pub fn validate_extension(&self, path: &str) -> (r: Result<(), u16>)
        ensures
            r == extension_verdict(path@, text_list(self.spec_config().allowed_extensions@)),
    {
        let p = chars_of(path);
        let dot = match rfind_char(p.as_slice(), '.') {
            Some(i) => i,
            None => {
                proof {
                    if p@.contains('.') {
                        let j = choose|j: int| 0 <= j < p@.len() && p@[j] == '.';
                        lemma_rfind_finds(p@, '.', j);
                    }
                }
                return Ok(());
            },
        };
        proof {
            assert(p@[dot as int] == '.') by {
                lemma_rfind_is_c(p@, '.');
            }
        }
        assert(dot < p.len());
        let ext = string_from_chars(chars_from(p.as_slice(), dot + 1).as_slice());
        let lower = to_lowercase(ext.as_str());
        let allowed = &self.config.allowed_extensions;
        proof {
            assert(path@.contains('.'));
            assert(ext@ == path@.skip(seq_rfind(path@, '.') + 1));
        }
        let mut i: usize = 0;
        while i < allowed.len()
            invariant
                0 <= i <= allowed@.len(),
                *allowed == self.spec_config().allowed_extensions,
                path@.contains('.'),
                lower@ == spec_to_lowercase(path@.skip(seq_rfind(path@, '.') + 1)),
                forall|j: int| 0 <= j < i ==> (#[trigger] allowed@[j])@ != lower@,
            decreases allowed@.len() - i,
        {
            if str_eq(allowed[i].as_str(), lower.as_str()) {
                proof {
                    assert(text_list(allowed@)[i as int] == lower@);
                }
                return Ok(());
            }
            i = i + 1;
        }
        proof {
            if text_list(allowed@).contains(lower@) {
                let j = choose|j: int| 0 <= j < text_list(allowed@).len() && text_list(allowed@)[j] == lower@;
                assert(allowed@[j]@ == lower@);
            }
        }
        Err(FORBIDDEN)
    }

    /// Validates request headers, given as (name, value bytes) pairs in
    /// order (see `headers_verdict`).
    pub fn validate_headers(&self, headers: &Vec<(String, Vec<u8>)>) -> (r: Result<(), u16>)
        requires
            header_total(headers@) <= usize::MAX,
        ensures
            r == headers_verdict(
                headers@,
                self.spec_config().max_header_size,
                self.spec_config().block_suspicious_user_agents,
            ),
    {
        let mut total: usize = 0;
        let mut i: usize = 0;
        while i < headers.len()
            invariant
                0 <= i <= headers@.len(),
                total == header_total(headers@.take(i as int)),
                header_total(headers@) <= usize::MAX,
            decreases headers@.len() - i,
        {
            proof {
                assert(headers@.take(i + 1).drop_last() =~= headers@.take(i as int));
                lemma_header_total_prefix(headers@, i + 1);
            }
            total = total + headers[i].0.as_str().len() + headers[i].1.len();
            i = i + 1;
        }
        proof {
            assert(headers@.take(headers@.len() as int) =~= headers@);
        }
        if total > self.config.max_header_size {
            return Err(HEADER_FIELDS_TOO_LARGE);
        }
        if self.config.block_suspicious_user_agents {
            if self.scanner_agent(headers) {
                return Err(FORBIDDEN);
            }
        }
        let mut j: usize = 0;
        while j < headers.len()
            invariant
                0 <= j <= headers@.len(),
                forall|k: int|
                    0 <= k < j ==> !(match header_text((#[trigger] headers@[k]).1@) {
                        Some(t) => t.contains('\r') || t.contains('\n'),
                        None => false,
                    }),
            decreases headers@.len() - j,
        {
            match header_as_text(&headers[j].1) {
                Some(t) => {
                    if has_char(t.as_slice(), '\r') || has_char(t.as_slice(), '\n') {
                        return Err(BAD_REQUEST);
                    }
                },
                None => {},
            }
            j = j + 1;
        }
        Ok(())
    }

    fn scanner_agent(&self, headers: &Vec<(String, Vec<u8>)>) -> (r: bool)
        ensures
            r == scanner_request(headers@),
    {
        let mut i: usize = 0;
        while i < headers.len()
            invariant
                0 <= i <= headers@.len(),
                forall|j: int| 0 <= j < i ==> (#[trigger] headers@[j]).0@ != "user-agent"@,
            decreases headers@.len() - i,
        {
            if str_eq(headers[i].0.as_str(), "user-agent") {
                proof {
                    let h = headers@;
                    let f = choose|x: int|
                        0 <= x < h.len() && (#[trigger] h[x]).0@ == "user-agent"@ && forall|y: int|
                            0 <= y < x ==> (#[trigger] h[y]).0@ != "user-agent"@;
                    assert(h[i as int].0@ == "user-agent"@);
                    assert(f == i) by {
                        if f < i {
                            assert(h[f].0@ != "user-agent"@);
                        }
                        if f > i {
                            assert(h[i as int].0@ != "user-agent"@);
                        }
                    }
                }
                let text = match header_as_text(&headers[i].1) {
                    Some(t) => t,
                    None => {
                        return false;
                    },
                };
                let ua = string_from_chars(text.as_slice());
                let lower = to_lowercase(ua.as_str());
                let lc = chars_of(lower.as_str());
                proof {
                    assert(first_header(headers@, "user-agent"@) == Some(headers@[i as int].1@));
                }
                let mut k: usize = 0;
                while k < 10
                    invariant
                        0 <= k <= 10,
                        first_header(headers@, "user-agent"@) == Some(headers@[i as int].1@),
                        header_text(headers@[i as int].1@) == Some(ua@),
                        lc@ == spec_to_lowercase(ua@),
                        forall|j: int| 0 <= j < k ==> !seq_has_infix(lc@, #[trigger] scanner_agents()[j]),
                    decreases 10 - k,
                {
                    let a = chars_of(scanner_agent_at(k));
                    proof {
                        assert(scanner_agents()[k as int] == a@);
                    }
                    if has_infix(lc.as_slice(), a.as_slice()) {
                        proof {
                            assert(seq_has_infix(lc@, scanner_agents()[k as int]));
                        }
                        return true;
                    }
                    k = k + 1;
                }
                return false;
            }
            i = i + 1;
        }
        false
    }

    /// Keeps only letters, digits, `/`, `-`, `_` and `.`.
    pub fn sanitize_path(&self, path: &str) -> (r: String)
        ensures
            r@ == path@.filter(sanitize_keeps_fn()),
    {
        PathSanitizer::sanitize(path)
    }
}

proof fn lemma_rfind_finds(s: Seq<char>, c: char, j: int)
    requires
        0 <= j < s.len(),
        s[j] == c,
    ensures
        seq_rfind(s, c) >= j,
    decreases s.len(),
{
    if s.last() != c {
        lemma_rfind_finds(s.drop_last(), c, j);
    }
}

proof fn lemma_rfind_is_c(s: Seq<char>, c: char)
    requires
        seq_rfind(s, c) >= 0,
    ensures
        seq_rfind(s, c) < s.len(),
        s[seq_rfind(s, c)] == c,
    decreases s.len(),
{
    if s.last() != c {
        lemma_rfind_is_c(s.drop_last(), c);
    }
}

// ---------------------------------------------------------------- headers

/// The content security policy sent when a strict one is enabled.
pub open spec fn strict_csp() -> Seq<char> {
    "default-src 'self'; script-src 'self' 'unsafe-inline' 'unsafe-eval'; style-src 'self' 'unsafe-inline'; img-src 'self' data: https:; font-src 'self' data:; connect-src 'self'; frame-ancestors 'self'; base-uri 'self'; form-action 'self'"@
}

/// The headers added to every response: four fixed ones, then HSTS and the
/// strict CSP when enabled.
pub open spec fn security_header_list(cfg: SecurityConfig) -> Seq<(Seq<char>, Seq<char>)> {
    let base = seq![
        ("X-Content-Type-Options"@, "nosniff"@),
        ("X-Frame-Options"@, "SAMEORIGIN"@),
        ("Referrer-Policy"@, "strict-origin-when-cross-origin"@),
        ("X-XSS-Protection"@, "1; mode=block"@),
    ];
    let with_hsts = if cfg.enable_hsts {
        base.push(
            (
                "Strict-Transport-Security"@,
                "max-age="@ + decimal(cfg.hsts_max_age as nat) + "; includeSubDomains; preload"@,
            ),
        )
    } else {
        base
    };
    if cfg.enable_strict_csp {
        with_hsts.push(("Content-Security-Policy"@, strict_csp()))
    } else {
        with_hsts
    }
}

/// The views of a list of header pairs.
pub open spec fn header_pairs(v: Seq<(String, String)>) -> Seq<(Seq<char>, Seq<char>)> {
    v.map_values(|p: (String, String)| (p.0@, p.1@))
}

/// The security headers to add to responses (see `security_header_list`).
pub fn security_headers(config: &SecurityConfig) -> (r: Vec<(String, String)>)
    ensures
        header_pairs(r@) == security_header_list(*config),
{
    let mut v: Vec<(String, String)> = Vec::new();
    v.push((lit("X-Content-Type-Options"), lit("nosniff")));
    v.push((lit("X-Frame-Options"), lit("SAMEORIGIN")));
    v.push((lit("Referrer-Policy"), lit("strict-origin-when-cross-origin")));
    v.push((lit("X-XSS-Protection"), lit("1; mode=block")));
    if config.enable_hsts {
        let digits = decimal_chars(config.hsts_max_age);
        v.push(
            (
                lit("Strict-Transport-Security"),
                concat3("max-age=", digits.as_slice(), "; includeSubDomains; preload"),
            ),
        );
    }
    if config.enable_strict_csp {
        v.push(
            (
                lit("Content-Security-Policy"),
                lit(
                    "default-src 'self'; script-src 'self' 'unsafe-inline' 'unsafe-eval'; style-src 'self' 'unsafe-inline'; img-src 'self' data: https:; font-src 'self' data:; connect-src 'self'; frame-ancestors 'self'; base-uri 'self'; form-action 'self'",
                ),
            ),
        );
    }
    assert(header_pairs(v@) =~= security_header_list(*config));
    v
}

/// The file extensions served by default, by position.
pub open spec fn default_extension(k: int) -> Seq<char> {
    if k == 0 {
        "html"@
    } else if k == 1 {
        "css"@
    } else if k == 2 {
        "js"@
    } else if k == 3 {
        "wasm"@
    } else if k == 4 {
        "json"@
    } else if k == 5 {
        "png"@
    } else if k == 6 {
        "jpg"@
    } else if k == 7 {
        "jpeg"@
    } else if k == 8 {
        "gif"@
    } else if k == 9 {
        "svg"@
    } else if k == 10 {
        "ico"@
    } else if k == 11 {
        "woff"@
    } else if k == 12 {
        "woff2"@
    } else if k == 13 {
        "ttf"@
    } else if k == 14 {
        "otf"@
    } else if k == 15 {
        "txt"@
    } else {
        "md"@
    }
}

/// The file extensions served by default.
pub open spec fn default_extensions() -> Seq<Seq<char>> {
    Seq::new(17, |k: int| default_extension(k))
}

fn default_extension_at(k: usize) -> (r: &'static str)
    requires
        k < 17,
    ensures
        r@ == default_extension(k as int),
{
    if k == 0 {
        "html"
    } else if k == 1 {
        "css"
    } else if k == 2 {
        "js"
    } else if k == 3 {
        "wasm"
    } else if k == 4 {
        "json"
    } else if k == 5 {
        "png"
    } else if k == 6 {
        "jpg"
    } else if k == 7 {
        "jpeg"
    } else if k == 8 {
        "gif"
    } else if k == 9 {
        "svg"
    } else if k == 10 {
        "ico"
    } else if k == 11 {
        "woff"
    } else if k == 12 {
        "woff2"
    } else if k == 13 {
        "ttf"
    } else if k == 14 {
        "otf"
    } else if k == 15 {
        "txt"
    } else {
        "md"
    }
}

/// The patterns a request path may not contain, by position.
pub open spec fn request_pattern(k: int) -> Seq<char> {
    if k == 0 {
        "/etc/"@
    } else if k == 1 {
        "/proc/"@
    } else if k == 2 {
        "/sys/"@
    } else if k == 3 {
        "/dev/"@
    } else if k == 4 {
        "/../"@
    } else if k == 5 {
        "/./"@
    } else if k == 6 {
        "//"@
    } else {
        "\\\\"@
    }
}

/// The patterns a request path may not contain.
pub open spec fn request_patterns() -> Seq<Seq<char>> {
    Seq::new(8, |k: int| request_pattern(k))
}

fn request_pattern_at(k: usize) -> (r: &'static str)
    requires
        k < 8,
    ensures
        r@ == request_pattern(k as int),
{
    if k == 0 {
        "/etc/"
    } else if k == 1 {
        "/proc/"
    } else if k == 2 {
        "/sys/"
    } else if k == 3 {
        "/dev/"
    } else if k == 4 {
        "/../"
    } else if k == 5 {
        "/./"
    } else if k == 6 {
        "//"
    } else {
        "\\\\"
    }
}

/// Parts of the user agents of known scanners, by position.
pub open spec fn scanner_agent(k: int) -> Seq<char> {
    if k == 0 {
        "sqlmap"@
    } else if k == 1 {
        "nikto"@
    } else if k == 2 {
        "nmap"@
    } else if k == 3 {
        "masscan"@
    } else if k == 4 {
        "nessus"@
    } else if k == 5 {
        "burp"@
    } else if k == 6 {
        "metasploit"@
    } else if k == 7 {
        "havij"@
    } else if k == 8 {
        "acunetix"@
    } else {
        "qualys"@
    }
}

/// Parts of the user agents of known scanners.
pub open spec fn scanner_agents() -> Seq<Seq<char>> {
    Seq::new(10, |k: int| scanner_agent(k))
}

fn scanner_agent_at(k: usize) -> (r: &'static str)
    requires
        k < 10,
    ensures
        r@ == scanner_agent(k as int),
{
    if k == 0 {
        "sqlmap"
    } else if k == 1 {
        "nikto"
    } else if k == 2 {
        "nmap"
    } else if k == 3 {
        "masscan"
    } else if k == 4 {
        "nessus"
    } else if k == 5 {
        "burp"
    } else if k == 6 {
        "metasploit"
    } else if k == 7 {
        "havij"
    } else if k == 8 {
        "acunetix"
    } else {
        "qualys"
    }
}

/// A request path is flagged exactly when it reaches into `/etc/`,
/// `/proc/`, `/sys/` or `/dev/`, or holds `/../`, `/./`, `//` or a doubled
/// backslash.
pub proof fn lemma_flagged_request_patterns(path: Seq<char>)
    ensures
        has_request_pattern(path) <==> (seq_has_infix(path, "/etc/"@) || seq_has_infix(path, "/proc/"@) || seq_has_infix(path, "/sys/"@) || seq_has_infix(path, "/dev/"@) || seq_has_infix(path, "/../"@) || seq_has_infix(path, "/./"@) || seq_has_infix(path, "//"@) || seq_has_infix(path, "\\\\"@)),
{
    assert(request_patterns()[0] == "/etc/"@);
    assert(request_patterns()[1] == "/proc/"@);
    assert(request_patterns()[2] == "/sys/"@);
    assert(request_patterns()[3] == "/dev/"@);
    assert(request_patterns()[4] == "/../"@);
    assert(request_patterns()[5] == "/./"@);
    assert(request_patterns()[6] == "//"@);
    assert(request_patterns()[7] == "\\\\"@);
}

/// A (lowercased) user agent names a scanner exactly when it mentions
/// sqlmap, nikto, nmap, masscan, nessus, burp, metasploit, havij, acunetix
/// or qualys.
pub proof fn lemma_known_scanners(ua: Seq<char>)
    ensures
        is_scanner(ua) <==> (seq_has_infix(ua, "sqlmap"@) || seq_has_infix(ua, "nikto"@) || seq_has_infix(ua, "nmap"@) || seq_has_infix(ua, "masscan"@) || seq_has_infix(ua, "nessus"@) || seq_has_infix(ua, "burp"@) || seq_has_infix(ua, "metasploit"@) || seq_has_infix(ua, "havij"@) || seq_has_infix(ua, "acunetix"@) || seq_has_infix(ua, "qualys"@)),
{
    assert(scanner_agents()[0] == "sqlmap"@);
    assert(scanner_agents()[1] == "nikto"@);
    assert(scanner_agents()[2] == "nmap"@);
    assert(scanner_agents()[3] == "masscan"@);
    assert(scanner_agents()[4] == "nessus"@);
    assert(scanner_agents()[5] == "burp"@);
    assert(scanner_agents()[6] == "metasploit"@);
    assert(scanner_agents()[7] == "havij"@);
    assert(scanner_agents()[8] == "acunetix"@);
    assert(scanner_agents()[9] == "qualys"@);
}

/// The extensions allowed by default are exactly those of web pages,
/// styles, scripts, WebAssembly, JSON, images, fonts, text and Markdown.
pub proof fn lemma_default_allowed_extensions(e: Seq<char>)
    ensures
        default_extensions().contains(e) <==> (e == "html"@ || e == "css"@ || e == "js"@ || e == "wasm"@ || e == "json"@ || e == "png"@ || e == "jpg"@ || e == "jpeg"@ || e == "gif"@ || e == "svg"@ || e == "ico"@ || e == "woff"@ || e == "woff2"@ || e == "ttf"@ || e == "otf"@ || e == "txt"@ || e == "md"@),
{
    assert(default_extensions()[0] == "html"@);
    assert(default_extensions()[1] == "css"@);
    assert(default_extensions()[2] == "js"@);
    assert(default_extensions()[3] == "wasm"@);
    assert(default_extensions()[4] == "json"@);
    assert(default_extensions()[5] == "png"@);
    assert(default_extensions()[6] == "jpg"@);
    assert(default_extensions()[7] == "jpeg"@);
    assert(default_extensions()[8] == "gif"@);
    assert(default_extensions()[9] == "svg"@);
    assert(default_extensions()[10] == "ico"@);
    assert(default_extensions()[11] == "woff"@);
    assert(default_extensions()[12] == "woff2"@);
    assert(default_extensions()[13] == "ttf"@);
    assert(default_extensions()[14] == "otf"@);
    assert(default_extensions()[15] == "txt"@);
    assert(default_extensions()[16] == "md"@);
}

/// Every response carries `nosniff`, `SAMEORIGIN`, a strict referrer
/// policy and the XSS filter in block mode; HSTS, with the configured
/// max-age, subdomains and preload, comes only when enabled, and so does
/// the strict content security policy, which then comes last.
pub proof fn lemma_security_header_rules(cfg: SecurityConfig)
    ensures
        ({
            let h = security_header_list(cfg);
            &&& h.len() == 4 + (if cfg.enable_hsts { 1int } else { 0 }) + (if cfg.enable_strict_csp { 1int } else { 0 })
            &&& h[0] == ("X-Content-Type-Options"@, "nosniff"@)
            &&& h[1] == ("X-Frame-Options"@, "SAMEORIGIN"@)
            &&& h[2] == ("Referrer-Policy"@, "strict-origin-when-cross-origin"@)
            &&& h[3] == ("X-XSS-Protection"@, "1; mode=block"@)
            &&& cfg.enable_hsts ==> h[4] == ("Strict-Transport-Security"@, "max-age="@ + decimal(
                cfg.hsts_max_age as nat,
            ) + "; includeSubDomains; preload"@)
            &&& cfg.enable_strict_csp ==> h.last() == ("Content-Security-Policy"@, strict_csp())
        }),
{
}

} // verus!
