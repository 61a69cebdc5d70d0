//! Serving a module's bytes: how a request is dispatched, the request a
//! WebAssembly API handler receives, and the HTTP reply built from what it
//! wrote.

use vstd::prelude::*;
use vstd::string::StringExecFns;
use crate::assoc::{StringMap, assoc_wf, assoc_view, keys_of};
use crate::gateway::io::{WasmRequest, WasmResponse};
use crate::codec::{spec_json_quote, json_quote};
use crate::gateway::router::{Router, raw_query_pairs, pair_views};
use crate::text::{
    chars_of, lit, ends_with, seq_ends_with, str_eq, string_from_chars, push_all, copy_bytes,
    seq_join, char_views, join_chars, utf8_string, spec_utf8_error_text, texts_of, opt_text,
    utf8, opt_str_text, text_bytes,
};
use crate::url::{spec_url_decode, url_decode};

verus! {

/// `b` begins with the WebAssembly magic `\0asm`.
pub open spec fn wasm_magic(b: Seq<u8>) -> bool {
    b.len() >= 4 && b[0] == 0x00u8 && b[1] == 0x61u8 && b[2] == 0x73u8 && b[3] == 0x6du8
}

/// A WebAssembly binary, component (version byte `0x0d`) or core module
/// (version byte `0x01`): what the gateway runs as an API.
pub open spec fn wasm_binary(b: Seq<u8>) -> bool {
    b.len() >= 5 && wasm_magic(b) && (b[4] == 0x0du8 || b[4] == 0x01u8)
}

/// A WebAssembly component: the magic, version byte `0x0d`, and a full
/// eight-byte preamble.
pub open spec fn wasm_component(b: Seq<u8>) -> bool {
    b.len() >= 8 && wasm_magic(b) && b[4] == 0x0du8
}

fn has_wasm_magic(bytes: &[u8]) -> (r: bool)
    ensures
        r == wasm_magic(bytes@),
{
    bytes.len() >= 4 && bytes[0] == 0x00u8 && bytes[1] == 0x61u8 && bytes[2] == 0x73u8
        && bytes[3] == 0x6du8
}

/// Whether `bytes` are a WebAssembly binary the gateway runs as an API.
pub fn is_wasm(bytes: &[u8]) -> (r: bool)
    ensures
        r == wasm_binary(bytes@),
{
    bytes.len() >= 5 && has_wasm_magic(bytes) && (bytes[4] == 0x0du8 || bytes[4] == 0x01u8)
}

/// Whether `bytes` are a WebAssembly component rather than a core module.
pub fn is_component(bytes: &[u8]) -> (r: bool)
    ensures
        r == wasm_component(bytes@),
{
    bytes.len() >= 8 && has_wasm_magic(bytes) && bytes[4] == 0x0du8
}

/// How the gateway serves a module's bytes for a path.
#[derive(Debug, Clone, Copy, PartialEq, Eq, Structural)]
pub enum ServeMode {
    /// Run the module as an API handler.
    Api,
    /// Serve the application's front page.
    Frontend,
    /// Serve a static file from the bundle.
    StaticFile,
}

/// The way a request for `path` on a module with bytes `b` is served:
/// WebAssembly runs as an API; otherwise the empty path, an `.html` path and
/// the index file get the front page, and any other path a static file.
pub open spec fn serve_mode_for(b: Seq<u8>, path: Seq<char>, index_file: Seq<char>) -> ServeMode {
    if wasm_binary(b) {
        ServeMode::Api
    } else if path.len() == 0 || seq_ends_with(path, ".html"@) || path == index_file {
        ServeMode::Frontend
    } else {
        ServeMode::StaticFile
    }
}

/// How a request for `path` (empty for the root) is served.
pub fn serve_mode(bytes: &[u8], path: &str, index_file: &str) -> (r: ServeMode)
    ensures
        r == serve_mode_for(bytes@, path@, index_file@),
{
    if is_wasm(bytes) {
        ServeMode::Api
    } else {
        let pc = chars_of(path);
        if pc.len() == 0 || ends_with(pc.as_slice(), chars_of(".html").as_slice()) || str_eq(
            path,
            index_file,
        ) {
            ServeMode::Frontend
        } else {
            ServeMode::StaticFile
        }
    }
}

/// The path an API handler sees: `path` with a leading `/`.
pub open spec fn api_path_of(path: Seq<char>) -> Seq<char> {
    if path.len() > 0 && path[0] == '/' {
        path
    } else {
        seq!['/'] + path
    }
}

/// The path an API handler sees for `path`.
pub fn api_path(path: &str) -> (r: String)
    ensures
        r@ == api_path_of(path@),
{
    let pc = chars_of(path);
    if pc.len() > 0 && pc[0] == '/' {
        string_from_chars(pc.as_slice())
    } else {
        let mut v: Vec<char> = Vec::new();
        v.push('/');
        let mut i: usize = 0;
        while i < pc.len()
            invariant
                0 <= i <= pc@.len(),
                v@ == seq!['/'] + pc@.take(i as int),
            decreases pc@.len() - i,
        {
            v.push(pc[i]);
            proof {
                assert(pc@.take(i + 1) =~= pc@.take(i as int).push(pc@[i as int]));
            }
            i = i + 1;
        }
        assert(pc@.take(pc@.len() as int) =~= pc@);
        string_from_chars(v.as_slice())
    }
}

/// The text `String::from_utf8_lossy` makes of some bytes.
pub uninterp spec fn spec_lossy_text(b: Seq<u8>) -> Seq<char>;

/// Bytes as text, each malformed UTF-8 sequence replaced by U+FFFD
/// (`String::from_utf8_lossy`). Valid UTF-8 comes back as the text it
/// encodes; what replaces malformed input is named, not stated.
#[verifier::external_body]
pub(crate) fn lossy_text(bytes: &[u8]) -> (r: String)
    ensures
        r@ == spec_lossy_text(bytes@),
        vstd::utf8::valid_utf8(bytes@) ==> vstd::utf8::encode_utf8(r@) == bytes@,
{
    String::from_utf8_lossy(bytes).to_string()
}

/// A header value readable as text: tabs and visible ASCII only (the
/// values `HeaderValue::to_str` accepts).
pub open spec fn visible_ascii(b: Seq<u8>) -> bool {
    forall|i: int| 0 <= i < b.len() ==> (#[trigger] b[i] == 9u8 || (32u8 <= b[i] && b[i] < 127u8))
}

/// The text of ASCII bytes.
pub open spec fn ascii_text(b: Seq<u8>) -> Seq<char> {
    b.map_values(|x: u8| x as char)
}

fn visible(b: &[u8]) -> (r: bool)
    ensures
        r == visible_ascii(b@),
{
    let mut i: usize = 0;
    while i < b.len()
        invariant
            0 <= i <= b@.len(),
            forall|j: int| 0 <= j < i ==> (#[trigger] b@[j] == 9u8 || (32u8 <= b@[j] && b@[j] < 127u8)),
        decreases b@.len() - i,
    {
        if !(b[i] == 9u8 || (32u8 <= b[i] && b[i] < 127u8)) {
            return false;
        }
        i = i + 1;
    }
    true
}

fn text_of_ascii(b: &[u8]) -> (r: String)
    ensures
        r@ == ascii_text(b@),
{
    let mut v: Vec<char> = Vec::new();
    let mut i: usize = 0;
    while i < b.len()
        invariant
            0 <= i <= b@.len(),
            v@ == ascii_text(b@.take(i as int)),
        decreases b@.len() - i,
    {
        v.push(b[i] as char);
        proof {
            assert(ascii_text(b@.take(i + 1)) =~= ascii_text(b@.take(i as int)).push(b@[i as int] as char));
        }
        i = i + 1;
    }
    assert(b@.take(b@.len() as int) =~= b@);
    string_from_chars(v.as_slice())
}

/// The views of a list of headers, names as text and values as bytes.
pub open spec fn header_views(h: Seq<(String, Vec<u8>)>) -> Seq<(Seq<char>, Seq<u8>)> {
    h.map_values(|p: (String, Vec<u8>)| (p.0@, p.1@))
}

/// The headers a handler sees: those whose value is readable text, a later
/// header of the same name winning.
pub open spec fn readable_headers(h: Seq<(Seq<char>, Seq<u8>)>) -> Map<Seq<char>, Seq<char>>
    decreases h.len(),
{
    if h.len() == 0 {
        Map::empty()
    } else if visible_ascii(h.last().1) {
        readable_headers(h.drop_last()).insert(h.last().0, ascii_text(h.last().1))
    } else {
        readable_headers(h.drop_last())
    }
}

/// The content type of a request: the first `content-type` header, when
/// its value is readable text.
pub open spec fn request_content_type(h: Seq<(Seq<char>, Seq<u8>)>) -> Option<Seq<char>>
    decreases h.len(),
{
    if h.len() == 0 {
        None
    } else if h[0].0 == "content-type"@ {
        if visible_ascii(h[0].1) {
            Some(ascii_text(h[0].1))
        } else {
            None
        }
    } else {
        request_content_type(h.drop_first())
    }
}

/// A query text as a handler sees it: URL-decoded, or as it stands where
/// decoding fails.
pub open spec fn decoded_or_raw(s: Seq<char>) -> Seq<char> {
    match spec_url_decode(s) {
        Ok(d) => d,
        Err(_) => s,
    }
}

/// The query parameters a handler sees: each `key=value` piece with both
/// sides decoded, a later key winning.
pub open spec fn api_query_map(pairs: Seq<(Seq<char>, Seq<char>)>) -> Map<Seq<char>, Seq<char>>
    decreases pairs.len(),
{
    if pairs.len() == 0 {
        Map::empty()
    } else {
        api_query_map(pairs.drop_last()).insert(
            decoded_or_raw(pairs.last().0),
            decoded_or_raw(pairs.last().1),
        )
    }
}

fn decode_or_keep(s: &String) -> (r: String)
    ensures
        r@ == decoded_or_raw(s@),
{
    match url_decode(s.as_str()) {
        Ok(d) => d,
        Err(_) => string_from_chars(chars_of(s.as_str()).as_slice()),
    }
}

/// The content type among `headers`, as `request_content_type` says.
fn content_type_of(headers: &Vec<(String, Vec<u8>)>) -> (r: Option<String>)
    ensures
        opt_text(r) == request_content_type(header_views(headers@)),
{
    let ghost hv = header_views(headers@);
    assert(hv.skip(0) =~= hv);
    let mut i: usize = 0;
    while i < headers.len()
        invariant
            0 <= i <= headers@.len(),
            hv == header_views(headers@),
            request_content_type(hv) == request_content_type(hv.skip(i as int)),
        decreases headers@.len() - i,
    {
        proof {
            assert(hv.skip(i as int)[0] == hv[i as int]);
            assert(hv.skip(i as int).drop_first() =~= hv.skip(i + 1));
        }
        let (name, value) = &headers[i];
        if str_eq(name.as_str(), "content-type") {
            if visible(value.as_slice()) {
                return Some(text_of_ascii(value.as_slice()));
            } else {
                return None;
            }
        }
        i = i + 1;
    }
    None
}

/// The query parameters an API handler sees, when there is a query.
pub open spec fn api_query_of(query: Option<Seq<char>>) -> Map<Seq<char>, Seq<char>> {
    match query {
        Some(q) => api_query_map(raw_query_pairs(q)),
        None => Map::empty(),
    }
}

/// The request an API handler receives for an HTTP request: the method,
/// the path with a leading `/`, the body as text, the readable headers, the
/// content type, and the decoded query parameters.
pub fn api_request(
    method: &str,
    path: &str,
    body: &[u8],
    headers: &Vec<(String, Vec<u8>)>,
    query: Option<&str>,
) -> (r: WasmRequest)
    ensures
        r.method@ == method@,
        r.path@ == api_path_of(path@),
        r.body@ == spec_lossy_text(body@),
        r.headers@ == readable_headers(header_views(headers@)),
        opt_text(r.content_type) == request_content_type(header_views(headers@)),
        r.query@ == api_query_of(opt_str_text(query)),
        !r.body_is_base64,
{
    let mut req = WasmRequest::new(lit(method), api_path(path), lossy_text(body));
    let ghost hv = header_views(headers@);
    let mut i: usize = 0;
    while i < headers.len()
        invariant
            0 <= i <= headers@.len(),
            hv == header_views(headers@),
            req.headers@ == readable_headers(hv.take(i as int)),
            req.query@ == Map::<Seq<char>, Seq<char>>::empty(),
            req.method@ == method@,
            req.path@ == api_path_of(path@),
            req.body@ == spec_lossy_text(body@),
            req.content_type is None,
            !req.body_is_base64,
        decreases headers@.len() - i,
    {
        let (name, value) = &headers[i];
        proof {
            assert(hv.take(i + 1).drop_last() =~= hv.take(i as int));
            assert(hv.take(i + 1).last() == (name@, value@));
        }
        if visible(value.as_slice()) {
            req = req.with_header(lit(name.as_str()), text_of_ascii(value.as_slice()));
        }
        i = i + 1;
    }
    proof {
        assert(hv.take(headers@.len() as int) =~= hv);
    }
    match content_type_of(headers) {
        Some(ct) => {
            req = req.with_content_type(ct);
        },
        None => {},
    }
    match query {
        Some(q) => {
            let pairs = Router::<()>::query_pairs(q);
            let ghost pv = pair_views(pairs@);
            let mut j: usize = 0;
            while j < pairs.len()
                invariant
                    0 <= j <= pairs@.len(),
                    pv == pair_views(pairs@),
                    pv == raw_query_pairs(q@),
                    req.query@ == api_query_map(pv.take(j as int)),
                    req.headers@ == readable_headers(hv),
                    hv == header_views(headers@),
                    opt_text(req.content_type) == request_content_type(hv),
                    req.method@ == method@,
                    req.path@ == api_path_of(path@),
                    req.body@ == spec_lossy_text(body@),
                    !req.body_is_base64,
                decreases pairs@.len() - j,
            {
                let (k, v) = &pairs[j];
                proof {
                    assert(pv.take(j + 1).drop_last() =~= pv.take(j as int));
                    assert(pv.take(j + 1).last() == (k@, v@));
                }
                req = req.with_query(decode_or_keep(k), decode_or_keep(v));
                j = j + 1;
            }
            proof {
                assert(pv.take(pairs@.len() as int) =~= pv);
            }
        },
        None => {},
    }
    req
}

/// An HTTP reply: status, content type, extra headers and body.
#[derive(Debug, Clone)]
pub struct HttpReply {
    pub status: u16,
    pub content_type: String,
    pub headers: Vec<(String, String)>,
    pub body: Vec<u8>,
}

/// The status sent for a code a module gives: the code when it is a valid
/// HTTP status (100 to 999), else 200.
pub open spec fn status_or_ok(code: u16) -> u16 {
    if 100 <= code && code <= 999 {
        code
    } else {
        200
    }
}

/// The status sent for `code`.
pub fn status_code(code: u16) -> (r: u16)
    ensures
        r == status_or_ok(code),
{
    if 100 <= code && code <= 999 {
        code
    } else {
        200
    }
}

/// One member `"key":"value"` of a JSON object of strings.
pub open spec fn json_member(kv: (Seq<char>, Seq<char>)) -> Seq<char> {
    spec_json_quote(kv.0) + seq![':'] + spec_json_quote(kv.1)
}

/// The members of a JSON object of strings, in order, comma-separated.
pub open spec fn json_members(kvs: Seq<(Seq<char>, Seq<char>)>) -> Seq<char>
    decreases kvs.len(),
{
    if kvs.len() == 0 {
        Seq::empty()
    } else if kvs.len() == 1 {
        json_member(kvs[0])
    } else {
        json_members(kvs.drop_last()) + seq![','] + json_member(kvs.last())
    }
}

/// A JSON object of strings as `serde_json` writes it, members in the
/// given (sorted) order.
pub open spec fn json_text_object(kvs: Seq<(Seq<char>, Seq<char>)>) -> Seq<char> {
    seq!['{'] + json_members(kvs) + seq!['}']
}

pub(crate) fn json_object(kvs: &Vec<(String, String)>) -> (r: String)
    ensures
        r@ == json_text_object(pair_views(kvs@)),
{
    let ghost kv = pair_views(kvs@);
    let mut out: Vec<char> = Vec::new();
    out.push('{');
    let mut i: usize = 0;
    while i < kvs.len()
        invariant
            0 <= i <= kvs@.len(),
            kv == pair_views(kvs@),
            out@ == seq!['{'] + json_members(kv.take(i as int)),
        decreases kvs@.len() - i,
    {
        let (k, v) = &kvs[i];
        proof {
            assert(kv.take(i + 1).drop_last() =~= kv.take(i as int));
            assert(kv.take(i + 1).last() == (k@, v@));
        }
        if i > 0 {
            out.push(',');
        }
        let qk = chars_of(json_quote(k.as_str()).as_str());
        push_all(&mut out, qk.as_slice());
        out.push(':');
        let qv = chars_of(json_quote(v.as_str()).as_str());
        push_all(&mut out, qv.as_slice());
        proof {
            if i == 0 {
                assert(kv.take(1) =~= seq![kv[0]]);
            }
            assert(out@ =~= seq!['{'] + json_members(kv.take(i + 1)));
        }
        i = i + 1;
    }
    out.push('}');
    proof {
        assert(kv.take(kvs@.len() as int) =~= kv);
    }
    string_from_chars(out.as_slice())
}

/// A reply with a JSON body.
pub open spec fn json_reply_is(r: HttpReply, status: u16, body: Seq<char>) -> bool {
    &&& r.status == status
    &&& r.content_type@ == "application/json"@
    &&& r.headers@.len() == 0
    &&& r.body@ == utf8(body)
}

pub(crate) fn json_reply(status: u16, kvs: &Vec<(String, String)>) -> (r: HttpReply)
    ensures
        json_reply_is(r, status, json_text_object(pair_views(kvs@))),
{
    let body = json_object(kvs);
    HttpReply {
        status,
        content_type: lit("application/json"),
        headers: Vec::new(),
        body: text_bytes(body.as_str()),
    }
}

pub(crate) fn kv(k: &str, v: &str) -> (r: (String, String))
    ensures
        r.0@ == k@,
        r.1@ == v@,
{
    (lit(k), lit(v))
}

/// The body of the reply to a module run that failed.
pub open spec fn failure_body(error: Seq<char>, message: Seq<char>, path: Seq<char>, cid: Seq<char>) -> Seq<char> {
    json_text_object(seq![("cid"@, cid), ("error"@, error), ("message"@, message), ("path"@, path)])
}

fn failure_reply(status: u16, error: &str, message: &str, path: &str, cid: &str) -> (r: HttpReply)
    ensures
        json_reply_is(r, status, failure_body(error@, message@, path@, cid@)),
{
    let mut kvs: Vec<(String, String)> = Vec::new();
    kvs.push(kv("cid", cid));
    kvs.push(kv("error", error));
    kvs.push(kv("message", message));
    kvs.push(kv("path", path));
    proof {
        assert(pair_views(kvs@) =~= seq![("cid"@, cid@), ("error"@, error@), ("message"@, message@), ("path"@, path@)]);
    }
    json_reply(status, &kvs)
}

/// The error texts of a failure, outermost first, as one message: each
/// cause on a line of its own after `Caused by:`.
pub open spec fn caused_by_text(chain: Seq<Seq<char>>) -> Seq<char> {
    seq_join(chain, "\n  Caused by: "@)
}

/// The error texts of a failure joined with ` -> `.
pub open spec fn arrow_text(chain: Seq<Seq<char>>) -> Seq<char> {
    seq_join(chain, " -> "@)
}

pub(crate) fn join_texts(parts: &Vec<String>, sep: &str) -> (r: String)
    ensures
        r@ == seq_join(texts_of(parts@), sep@),
{
    let mut cs: Vec<Vec<char>> = Vec::new();
    let mut i: usize = 0;
    while i < parts.len()
        invariant
            0 <= i <= parts@.len(),
            char_views(cs@) == texts_of(parts@.take(i as int)),
        decreases parts@.len() - i,
    {
        let c = chars_of(parts[i].as_str());
        proof {
            assert(char_views(cs@.push(c)) =~= char_views(cs@).push(c@));
            assert(texts_of(parts@.take(i + 1)) =~= texts_of(parts@.take(i as int)).push(parts@[i as int]@));
        }
        cs.push(c);
        i = i + 1;
    }
    proof {
        assert(parts@.take(parts@.len() as int) =~= parts@);
    }
    let sc = chars_of(sep);
    let joined = join_chars(&cs, sc.as_slice());
    string_from_chars(joined.as_slice())
}

/// The reply when a component failed: 500, with the error chain.
pub fn component_failure(chain: &Vec<String>, path: &str, cid: &str) -> (r: HttpReply)
    ensures
        json_reply_is(
            r,
            500,
            failure_body("Component execution failed"@, caused_by_text(texts_of(chain@)), path@, cid@),
        ),
{
    let message = join_texts(chain, "\n  Caused by: ");
    failure_reply(500, "Component execution failed", message.as_str(), path, cid)
}

/// The reply when a core module's handler failed: 500, with the error
/// chain.
pub fn execution_failure(chain: &Vec<String>, path: &str, cid: &str) -> (r: HttpReply)
    ensures
        json_reply_is(r, 500, failure_body("Execution failed"@, arrow_text(texts_of(chain@)), path@, cid@)),
{
    let message = join_texts(chain, " -> ");
    failure_reply(500, "Execution failed", message.as_str(), path, cid)
}

/// The message given when a core module exports no handler.
pub open spec fn no_handler_message() -> Seq<char> {
    "Module must export 'handle_request', '_handle_request', or '_start' function"@
}

/// The reply when a core module exports no handler: 501.
pub fn no_handler(path: &str, cid: &str) -> (r: HttpReply)
    ensures
        json_reply_is(r, 501, failure_body("No API handler found"@, no_handler_message(), path@, cid@)),
{
    failure_reply(
        501,
        "No API handler found",
        "Module must export 'handle_request', '_handle_request', or '_start' function",
        path,
        cid,
    )
}

/// The handler a core module is run by: `_handle_request`, else
/// `handle_request`, else `_start`, by which of them it exports.
pub open spec fn handler_choice(has_underscore_handle: bool, has_handle: bool, has_start: bool) -> Option<Seq<char>> {
    if has_underscore_handle {
        Some("_handle_request"@)
    } else if has_handle {
        Some("handle_request"@)
    } else if has_start {
        Some("_start"@)
    } else {
        None
    }
}

/// The export a core module is run by, given which of the three it has.
pub fn handler_export(has_underscore_handle: bool, has_handle: bool, has_start: bool) -> (r: Option<&'static str>)
    ensures
        match r {
            Some(s) => handler_choice(has_underscore_handle, has_handle, has_start) == Some(s@),
            None => handler_choice(has_underscore_handle, has_handle, has_start) is None,
        },
{
    if has_underscore_handle {
        Some("_handle_request")
    } else if has_handle {
        Some("handle_request")
    } else if has_start {
        Some("_start")
    } else {
        None
    }
}

/// The body of the reply to a component that wrote nothing.
pub open spec fn component_silent_body(path: Seq<char>, cid: Seq<char>) -> Seq<char> {
    json_text_object(
        seq![
            ("cid"@, cid),
            ("message"@, "Component executed but produced no output"@),
            ("path"@, path),
            ("status"@, "success"@),
        ],
    )
}

/// The body of the reply to a core module that wrote nothing.
pub open spec fn core_silent_body(path: Seq<char>, cid: Seq<char>) -> Seq<char> {
    json_text_object(
        seq![
            ("cid"@, cid),
            ("message"@, "Handler executed but produced no output"@),
            ("note"@, "Module should write WasmResponse JSON to stdout"@),
            ("path"@, path),
            ("status"@, "success"@),
        ],
    )
}

/// What the gateway reads in a component's JSON output: the `status`
/// when it is an unsigned integer, and the `body` and `content_type` when
/// they are strings; `None` when the output is not JSON.
pub uninterp spec fn spec_json_reply_fields(text: Seq<char>) -> Option<(Option<u64>, Option<Seq<char>>, Option<Seq<char>>)>;

/// The view of the fields read from a component's output.
pub open spec fn fields_view(f: Option<(Option<u64>, Option<String>, Option<String>)>) -> Option<(Option<u64>, Option<Seq<char>>, Option<Seq<char>>)> {
    match f {
        Some((st, b, ct)) => Some((st, opt_text(b), opt_text(ct))),
        None => None,
    }
}

/// Parses a component's output as JSON (`serde_json::Value`) and reads its
/// `status`, `body` and `content_type` members. What the parse gives is
/// named, not stated.
#[verifier::external_body]
fn json_reply_fields(text: &str) -> (r: Option<(Option<u64>, Option<String>, Option<String>)>)
    ensures
        fields_view(r) == spec_json_reply_fields(text@),
{
    match serde_json::from_str::<serde_json::Value>(text) {
        Ok(v) => Some((
            v.get("status").and_then(|x| x.as_u64()),
            v.get("body").and_then(|x| x.as_str()).map(|x| x.to_string()),
            v.get("content_type").and_then(|x| x.as_str()).map(|x| x.to_string()),
        )),
        Err(_) => None,
    }
}

/// The reply for a component's text output, given what its JSON holds: a
/// `status` makes a reply with that status (200 where it is no valid code),
/// the `content_type` (JSON by default) and the `body` (the whole output by
/// default); other JSON goes back as it is, and output that is not JSON as
/// plain text.
pub open spec fn output_reply_is(r: HttpReply, text: Seq<char>, fields: Option<(Option<u64>, Option<Seq<char>>, Option<Seq<char>>)>) -> bool {
    &&& r.headers@.len() == 0
    &&& match fields {
        None => r.status == 200 && r.content_type@ == "text/plain"@ && r.body@ == utf8(text),
        Some((None, _, _)) => r.status == 200 && r.content_type@ == "application/json"@ && r.body@ == utf8(text),
        Some((Some(st), body, ct)) => {
            &&& r.status == status_or_ok(st as u16)
            &&& r.content_type@ == (match ct { Some(c) => c, None => "application/json"@ })
            &&& r.body@ == utf8(match body { Some(b) => b, None => text })
        },
    }
}

/// The reply for a component's text output, given the fields its JSON
/// holds (see `output_reply_is`).
pub fn reply_from_output(text: &str, fields: Option<(Option<u64>, Option<String>, Option<String>)>) -> (r: HttpReply)
    ensures
        output_reply_is(r, text@, fields_view(fields)),
{
    match fields {
        None => HttpReply {
            status: 200,
            content_type: lit("text/plain"),
            headers: Vec::new(),
            body: text_bytes(text),
        },
        Some((None, _, _)) => HttpReply {
            status: 200,
            content_type: lit("application/json"),
            headers: Vec::new(),
            body: text_bytes(text),
        },
        Some((Some(st), body, ct)) => {
            #[verifier::truncate]
            let code = st as u16;
            let content_type = match ct {
                Some(c) => c,
                None => lit("application/json"),
            };
            let bytes = match body {
                Some(b) => text_bytes(b.as_str()),
                None => text_bytes(text),
            };
            HttpReply { status: status_code(code), content_type, headers: Vec::new(), body: bytes }
        },
    }
}

/// The reply for what a component wrote to its standard output: a note
/// when it wrote nothing, a 500 when it is not UTF-8, else the reply its
/// text gives (see `output_reply_is`).
pub fn component_reply(stdout: &[u8], path: &str, cid: &str) -> (r: HttpReply)
    ensures
        stdout@.len() == 0 ==> json_reply_is(r, 200, component_silent_body(path@, cid@)),
        stdout@.len() > 0 && !vstd::utf8::valid_utf8(stdout@) ==> json_reply_is(
            r,
            500,
            failure_body(
                "Invalid UTF-8 in component output"@,
                spec_utf8_error_text(stdout@),
                path@,
                cid@,
            ),
        ),
        stdout@.len() > 0 && vstd::utf8::valid_utf8(stdout@) ==> output_reply_is(
            r,
            vstd::utf8::decode_utf8(stdout@),
            spec_json_reply_fields(vstd::utf8::decode_utf8(stdout@)),
        ),
{
    if stdout.len() == 0 {
        let mut kvs: Vec<(String, String)> = Vec::new();
        kvs.push(kv("cid", cid));
        kvs.push(kv("message", "Component executed but produced no output"));
        kvs.push(kv("path", path));
        kvs.push(kv("status", "success"));
        proof {
            assert(pair_views(kvs@) =~= seq![
                ("cid"@, cid@),
                ("message"@, "Component executed but produced no output"@),
                ("path"@, path@),
                ("status"@, "success"@),
            ]);
        }
        return json_reply(200, &kvs);
    }
    match utf8_string(stdout) {
        Ok(text) => {
            let fields = json_reply_fields(text.as_str());
            reply_from_output(text.as_str(), fields)
        },
        Err(e) => failure_reply(500, "Invalid UTF-8 in component output", e.as_str(), path, cid),
    }
}

/// The reply for what a core module's handler wrote, given the response
/// parsed from it (`None` where it is no `WasmResponse` JSON): a note when
/// it wrote nothing; the parsed response's status (200 where it is no valid
/// code), content type (JSON by default), headers and body; else the
/// output as plain text.
pub fn core_reply(stdout: &[u8], parsed: Option<WasmResponse>, path: &str, cid: &str) -> (r: HttpReply)
    ensures
        stdout@.len() == 0 ==> json_reply_is(r, 200, core_silent_body(path@, cid@)),
        stdout@.len() > 0 ==> match parsed {
            Some(resp) => {
                &&& r.status == status_or_ok(resp.status)
                &&& r.content_type@ == (match resp.content_type {
                    Some(c) => c@,
                    None => "application/json"@,
                })
                &&& assoc_wf(r.headers@)
                &&& assoc_view(r.headers@).map_values(|v: String| v@) == resp.headers@
                &&& r.body@ == utf8(resp.body@)
            },
            None => {
                &&& r.status == 200
                &&& r.content_type@ == "text/plain"@
                &&& r.headers@.len() == 0
                &&& r.body@ == utf8(spec_lossy_text(stdout@))
            },
        },
{
    if stdout.len() == 0 {
        let mut kvs: Vec<(String, String)> = Vec::new();
        kvs.push(kv("cid", cid));
        kvs.push(kv("message", "Handler executed but produced no output"));
        kvs.push(kv("note", "Module should write WasmResponse JSON to stdout"));
        kvs.push(kv("path", path));
        kvs.push(kv("status", "success"));
        proof {
            assert(pair_views(kvs@) =~= seq![
                ("cid"@, cid@),
                ("message"@, "Handler executed but produced no output"@),
                ("note"@, "Module should write WasmResponse JSON to stdout"@),
                ("path"@, path@),
                ("status"@, "success"@),
            ]);
        }
        return json_reply(200, &kvs);
    }
    match parsed {
        Some(resp) => {
            let content_type = match resp.content_type {
                Some(c) => c,
                None => lit("application/json"),
            };
            let src = resp.headers.pairs();
            let headers = copy_pairs(src);
            proof {
                lemma_same_pair_views(headers@, src@);
            }
            HttpReply {
                status: status_code(resp.status),
                content_type,
                headers,
                body: text_bytes(resp.body.as_str()),
            }
        },
        None => {
            let text = lossy_text(stdout);
            HttpReply {
                status: 200,
                content_type: lit("text/plain"),
                headers: Vec::new(),
                body: text_bytes(text.as_str()),
            }
        },
    }
}

proof fn lemma_same_pair_views(a: Seq<(String, String)>, b: Seq<(String, String)>)
    requires
        pair_views(a) == pair_views(b),
    ensures
        assoc_wf(a) == assoc_wf(b),
        assoc_view(a).map_values(|v: String| v@) == assoc_view(b).map_values(|v: String| v@),
{
    assert(a.len() == pair_views(a).len());
    assert forall|i: int| 0 <= i < a.len() implies #[trigger] keys_of(a)[i] == keys_of(b)[i] by {
        assert(pair_views(a)[i] == pair_views(b)[i]);
    }
    assert(keys_of(a) =~= keys_of(b));
    assert forall|k: Seq<char>| #[trigger] assoc_view(a).contains_key(k) implies assoc_view(a)[k]@
        == assoc_view(b)[k]@ by {
        let i = keys_of(a).index_of(k);
        assert(pair_views(a)[i] == pair_views(b)[i]);
    }
    assert(assoc_view(a).map_values(|v: String| v@) =~= assoc_view(b).map_values(|v: String| v@));
}

fn copy_pairs(v: &Vec<(String, String)>) -> (r: Vec<(String, String)>)
    ensures
        pair_views(r@) == pair_views(v@),
{
    let mut out: Vec<(String, String)> = Vec::new();
    let mut i: usize = 0;
    while i < v.len()
        invariant
            0 <= i <= v@.len(),
            pair_views(out@) == pair_views(v@.take(i as int)),
        decreases v@.len() - i,
    {
        let (a, b) = &v[i];
        let p = (lit(a.as_str()), lit(b.as_str()));
        proof {
            assert(pair_views(out@.push(p)) =~= pair_views(out@).push((p.0@, p.1@)));
            assert(pair_views(v@.take(i + 1)) =~= pair_views(v@.take(i as int)).push((v@[i as int].0@, v@[i as int].1@)));
        }
        out.push(p);
        i = i + 1;
    }
    proof {
        assert(v@.take(v@.len() as int) =~= v@);
    }
    out
}

/// A core module is run by `_handle_request` when it exports it, else by
/// `handle_request`, else by `_start`; with none of the three it has no
/// handler.
pub proof fn lemma_handler_preference(u: bool, h: bool, st: bool)
    ensures
        u ==> handler_choice(u, h, st) == Some("_handle_request"@),
        !u && h ==> handler_choice(u, h, st) == Some("handle_request"@),
        !u && !h && st ==> handler_choice(u, h, st) == Some("_start"@),
        !u && !h && !st ==> handler_choice(u, h, st) is None,
{
}

} // verus!
