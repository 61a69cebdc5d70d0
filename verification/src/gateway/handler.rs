//! Decisions of the request handler: content types, archive detection and
//! lookup, response headers and error pages.

use vstd::prelude::*;
use vstd::string::StringExecFns;
use crate::text::{
    chars_of, lit, concat3, ends_with, seq_ends_with, str_eq, decimal, decimal_chars,
    string_from_chars, chars_from,
};
use crate::security::trim_leading;

verus! {

/// Runs module functions for the gateway.
pub struct WasmHandler;

/// A name that may be a CID rather than an application name: a leading
/// `b` and more than 30 bytes.
pub open spec fn cid_like(s: Seq<char>, nbytes: int) -> bool {
    s.len() > 0 && s[0] == 'b' && nbytes > 30
}

/// Whether `s` may be a CID rather than an application name.
pub fn looks_like_cid(s: &str) -> (r: bool)
    ensures
        r == cid_like(s@, s.len() as int),
{
    let c = chars_of(s);
    c.len() > 0 && c[0] == 'b' && s.len() > 30
}

/// The content type served for a path, by its ending.
pub open spec fn content_type_by_suffix(p: Seq<char>) -> Seq<char> {
    if seq_ends_with(p, ".html"@) || seq_ends_with(p, ".htm"@) {
        "text/html"@
    } else if seq_ends_with(p, ".xml"@) {
        "application/xml"@
    } else if seq_ends_with(p, ".css"@) {
        "text/css"@
    } else if seq_ends_with(p, ".js"@) || seq_ends_with(p, ".mjs"@) {
        "application/javascript"@
    } else if seq_ends_with(p, ".json"@) {
        "application/json"@
    } else if seq_ends_with(p, ".png"@) {
        "image/png"@
    } else if seq_ends_with(p, ".jpg"@) || seq_ends_with(p, ".jpeg"@) {
        "image/jpeg"@
    } else if seq_ends_with(p, ".gif"@) {
        "image/gif"@
    } else if seq_ends_with(p, ".svg"@) {
        "image/svg+xml"@
    } else if seq_ends_with(p, ".webp"@) {
        "image/webp"@
    } else if seq_ends_with(p, ".ico"@) {
        "image/x-icon"@
    } else if seq_ends_with(p, ".woff"@) {
        "font/woff"@
    } else if seq_ends_with(p, ".woff2"@) {
        "font/woff2"@
    } else if seq_ends_with(p, ".ttf"@) {
        "font/ttf"@
    } else if seq_ends_with(p, ".otf"@) {
        "font/otf"@
    } else if seq_ends_with(p, ".wasm"@) {
        "application/wasm"@
    } else if seq_ends_with(p, ".txt"@) {
        "text/plain"@
    } else if seq_ends_with(p, ".md"@) {
        "text/markdown"@
    } else {
        "application/octet-stream"@
    }
}

/// The content type served for `path`, by its ending.
pub fn guess_content_type(path: &str) -> (r: &'static str)
    ensures
        r@ == content_type_by_suffix(path@),
{
    let pc = chars_of(path);
    if ends_with(pc.as_slice(), chars_of(".html").as_slice()) || ends_with(pc.as_slice(), chars_of(".htm").as_slice()) {
        "text/html"
    } else if ends_with(pc.as_slice(), chars_of(".xml").as_slice()) {
        "application/xml"
    } else if ends_with(pc.as_slice(), chars_of(".css").as_slice()) {
        "text/css"
    } else if ends_with(pc.as_slice(), chars_of(".js").as_slice()) || ends_with(pc.as_slice(), chars_of(".mjs").as_slice()) {
        "application/javascript"
    } else if ends_with(pc.as_slice(), chars_of(".json").as_slice()) {
        "application/json"
    } else if ends_with(pc.as_slice(), chars_of(".png").as_slice()) {
        "image/png"
    } else if ends_with(pc.as_slice(), chars_of(".jpg").as_slice()) || ends_with(pc.as_slice(), chars_of(".jpeg").as_slice()) {
        "image/jpeg"
    } else if ends_with(pc.as_slice(), chars_of(".gif").as_slice()) {
        "image/gif"
    } else if ends_with(pc.as_slice(), chars_of(".svg").as_slice()) {
        "image/svg+xml"
    } else if ends_with(pc.as_slice(), chars_of(".webp").as_slice()) {
        "image/webp"
    } else if ends_with(pc.as_slice(), chars_of(".ico").as_slice()) {
        "image/x-icon"
    } else if ends_with(pc.as_slice(), chars_of(".woff").as_slice()) {
        "font/woff"
    } else if ends_with(pc.as_slice(), chars_of(".woff2").as_slice()) {
        "font/woff2"
    } else if ends_with(pc.as_slice(), chars_of(".ttf").as_slice()) {
        "font/ttf"
    } else if ends_with(pc.as_slice(), chars_of(".otf").as_slice()) {
        "font/otf"
    } else if ends_with(pc.as_slice(), chars_of(".wasm").as_slice()) {
        "application/wasm"
    } else if ends_with(pc.as_slice(), chars_of(".txt").as_slice()) {
        "text/plain"
    } else if ends_with(pc.as_slice(), chars_of(".md").as_slice()) {
        "text/markdown"
    } else {
        "application/octet-stream"
    }
}

/// The bytes a TAR archive holds at offset 257: `ustar`.
pub open spec fn ustar() -> Seq<u8> {
    seq![0x75u8, 0x73u8, 0x74u8, 0x61u8, 0x72u8]
}

/// `bytes` is a TAR archive: at least 262 bytes, with `ustar` at 257.
pub open spec fn tar_bytes(bytes: Seq<u8>) -> bool {
    bytes.len() >= 262 && bytes.subrange(257, 262) == ustar()
}

/// Whether `bytes` is a TAR archive.
pub fn is_tar_archive(bytes: &[u8]) -> (r: bool)
    ensures
        r == tar_bytes(bytes@),
{
    if bytes.len() < 262 {
        return false;
    }
    let r = bytes[257] == 0x75 && bytes[258] == 0x73 && bytes[259] == 0x74 && bytes[260] == 0x61
        && bytes[261] == 0x72;
    proof {
        if r {
            assert(bytes@.subrange(257, 262) =~= ustar());
        } else if bytes@.subrange(257, 262) == ustar() {
            assert(bytes@.subrange(257, 262)[0] == 0x75u8);
            assert(bytes@.subrange(257, 262)[1] == 0x73u8);
            assert(bytes@.subrange(257, 262)[2] == 0x74u8);
            assert(bytes@.subrange(257, 262)[3] == 0x61u8);
            assert(bytes@.subrange(257, 262)[4] == 0x72u8);
        }
    }
    r
}

/// An archive entry at `entry` answers a request for `file`: it is the
/// file without its leading slashes, or the file itself, or, for a
/// directory (empty or ending in `/`), its `index.html`.
pub open spec fn entry_answers(entry: Seq<char>, file: Seq<char>) -> bool {
    let n = trim_leading(file, '/');
    ||| entry == n
    ||| entry == file
    ||| (n.len() == 0 || n.last() == '/') && entry == n + "index.html"@
}

/// Whether the archive entry at `entry` answers a request for `file` (see
/// `entry_answers`).
pub fn entry_matches(entry: &str, file: &str) -> (r: bool)
    ensures
        r == entry_answers(entry@, file@),
{
    let fc = chars_of(file);
    let mut start: usize = 0;
    assert(fc@.skip(0) =~= fc@);
    while start < fc.len() && fc[start] == '/'
        invariant
            0 <= start <= fc@.len(),
            trim_leading(fc@.skip(start as int), '/') == trim_leading(fc@, '/'),
        decreases fc@.len() - start,
    {
        assert(fc@.skip(start as int).drop_first() =~= fc@.skip(start + 1));
        start = start + 1;
    }
    let n = chars_from(fc.as_slice(), start);
    proof {
        assert(trim_leading(fc@.skip(start as int), '/') == fc@.skip(start as int));
    }
    let ns = string_from_chars(n.as_slice());
    if str_eq(entry, ns.as_str()) || str_eq(entry, file) {
        return true;
    }
    if n.len() == 0 || n[n.len() - 1] == '/' {
        let mut index = string_from_chars(n.as_slice());
        index.append("index.html");
        return str_eq(entry, index.as_str());
    }
    false
}

/// What the TAR reader gives, entry by entry, for an archive: the paths of
/// the entries it read, in order, shown lossily as text, and whether it
/// stopped on an entry it could not read rather than at the end.
pub uninterp spec fn spec_tar_paths(bytes: Seq<u8>) -> (Seq<Seq<char>>, bool);

/// What reading the contents of entry `k` of an archive gives, if it can be
/// read.
pub uninterp spec fn spec_tar_contents(bytes: Seq<u8>, k: nat) -> Option<Seq<u8>>;

/// Walks the entries of a TAR archive (`tar::Archive::entries`), taking the
/// path of each (`Entry::path`, shown with `to_string_lossy`) without
/// reading its contents; stops at the first entry or path that cannot be
/// read, and says whether it did.
#[verifier::external_body]
fn tar_paths(bytes: &[u8]) -> (r: (Vec<String>, bool))
    ensures
        (r.0@.map_values(|p: String| p@), r.1) == spec_tar_paths(bytes@),
{
    let mut archive = tar::Archive::new(std::io::Cursor::new(bytes));
    let mut paths = Vec::new();
    let Ok(entries) = archive.entries() else { return (paths, true) };
    for entry in entries {
        let Ok(entry) = entry else { return (paths, true) };
        let Ok(path) = entry.path() else { return (paths, true) };
        paths.push(path.to_string_lossy().to_string());
    }
    (paths, false)
}

/// Reads out the contents of entry `k` of a TAR archive: walks the entries
/// (`tar::Archive::entries`, `Iterator::nth`) and reads that one to its end;
/// `None` if it cannot be reached or read.
#[verifier::external_body]
fn tar_contents(bytes: &[u8], k: usize) -> (r: Option<Vec<u8>>)
    ensures
        r is Some <==> spec_tar_contents(bytes@, k as nat) is Some,
        r matches Some(c) ==> spec_tar_contents(bytes@, k as nat) == Some(c@),
{
    let mut archive = tar::Archive::new(std::io::Cursor::new(bytes));
    let mut entry = archive.entries().ok()?.nth(k)?.ok()?;
    let mut contents = Vec::new();
    std::io::Read::read_to_end(&mut entry, &mut contents).ok()?;
    Some(contents)
}

/// The position of the first of `paths` answering `file`, or -1.
pub open spec fn first_answer(paths: Seq<Seq<char>>, file: Seq<char>) -> int
    decreases paths.len(),
{
    if paths.len() == 0 {
        -1
    } else {
        let f = first_answer(paths.drop_last(), file);
        if f >= 0 {
            f
        } else if entry_answers(paths.last(), file) {
            paths.len() - 1
        } else {
            -1
        }
    }
}

proof fn lemma_first_answer_prefix(s: Seq<Seq<char>>, file: Seq<char>, k: int)
    requires
        0 <= k <= s.len(),
        first_answer(s.take(k), file) >= 0,
    ensures
        first_answer(s, file) == first_answer(s.take(k), file),
    decreases s.len() - k,
{
    if k == s.len() {
        assert(s.take(k) =~= s);
    } else {
        assert(s.take(k + 1).drop_last() =~= s.take(k));
        lemma_first_answer_prefix(s, file, k + 1);
    }
}

/// The position of the first of the archive entry `paths` that answers a
/// request for `file` (see `entry_answers`).
pub fn find_in_paths(paths: &Vec<String>, file: &str) -> (r: Option<usize>)
    ensures
        ({
            let i = first_answer(paths@.map_values(|p: String| p@), file@);
            match r {
                Some(k) => i >= 0 && k == i,
                None => i == -1,
            }
        }),
{
    let ghost pv = paths@.map_values(|p: String| p@);
    let mut i: usize = 0;
    while i < paths.len()
        invariant
            0 <= i <= paths@.len(),
            pv == paths@.map_values(|p: String| p@),
            first_answer(pv.take(i as int), file@) == -1,
        decreases paths@.len() - i,
    {
        proof {
            assert(pv.take(i + 1).drop_last() =~= pv.take(i as int));
            assert(pv.take(i + 1).last() == pv[i as int]);
        }
        if entry_matches(paths[i].as_str(), file) {
            proof {
                lemma_first_answer_prefix(pv, file@, i + 1);
            }
            return Some(i);
        }
        i = i + 1;
    }
    proof {
        assert(pv.take(paths@.len() as int) =~= pv);
    }
    None
}

/// What looking up `file` in a TAR archive gives, going through its entries
/// in order and stopping at the first that answers it: `None` when an
/// entry up to that one cannot be read (or its contents cannot), else the
/// contents of that entry, or `Some(None)` when the whole archive was read
/// and none answers.
pub open spec fn tar_lookup(bytes: Seq<u8>, file: Seq<char>) -> Option<Option<Seq<u8>>> {
    let (ps, failed) = spec_tar_paths(bytes);
    let i = first_answer(ps, file);
    if i >= 0 {
        match spec_tar_contents(bytes, i as nat) {
            Some(c) => Some(Some(c)),
            None => None,
        }
    } else if failed {
        None
    } else {
        Some(None)
    }
}

/// The contents of the file `file_path` in a TAR archive (see
/// `tar_lookup`); `Err` when an entry read before the answer is found, or
/// the answer's contents, cannot be read.
pub fn extract_from_tar(archive_bytes: &[u8], file_path: &str) -> (r: Result<Option<Vec<u8>>, ()>)
    ensures
        match r {
            Err(_) => tar_lookup(archive_bytes@, file_path@) is None,
            Ok(Some(c)) => tar_lookup(archive_bytes@, file_path@) == Some(Some(c@)),
            Ok(None) => tar_lookup(archive_bytes@, file_path@) == Some(None::<Seq<u8>>),
        },
{
    let (paths, failed) = tar_paths(archive_bytes);
    match find_in_paths(&paths, file_path) {
        Some(k) => match tar_contents(archive_bytes, k) {
            Some(c) => Ok(Some(c)),
            None => Err(()),
        },
        None => {
            if failed {
                Err(())
            } else {
                Ok(None)
            }
        },
    }
}

/// What BLAKE3 gives for `data`, in lowercase hexadecimal.
pub uninterp spec fn spec_blake3_hex(data: Seq<u8>) -> Seq<char>;

/// The BLAKE3 digest of `data` in lowercase hex (`blake3::hash(..).to_hex()`).
#[verifier::external_body]
pub(crate) fn blake3_hex(data: &[u8]) -> (r: String)
    ensures
        r@ == spec_blake3_hex(data@),
{
    blake3::hash(data).to_hex().to_string()
}

/// The content security policy of served pages.
pub open spec fn page_csp() -> Seq<char> {
    "default-src 'self'; script-src 'self' 'unsafe-inline' 'unsafe-eval'; style-src 'self' 'unsafe-inline'; img-src 'self' data: https:; font-src 'self' data:; connect-src 'self'"@
}

/// The headers of a served asset: its content type; for HTML the page
/// security headers and an hour's revalidated caching, for anything else
/// a year's immutable caching; then an ETag of its BLAKE3 digest.
pub open spec fn asset_header_list(content_type: Seq<char>, data: Seq<u8>) -> Seq<(Seq<char>, Seq<char>)> {
    let head = seq![("content-type"@, content_type)];
    let mid = if content_type == "text/html"@ {
        head + seq![
            ("Content-Security-Policy"@, page_csp()),
            ("X-Content-Type-Options"@, "nosniff"@),
            ("X-Frame-Options"@, "SAMEORIGIN"@),
            ("Referrer-Policy"@, "strict-origin-when-cross-origin"@),
            ("cache-control"@, "public, max-age=3600, must-revalidate"@),
        ]
    } else {
        head.push(("cache-control"@, "public, max-age=31536000, immutable"@))
    };
    mid.push(("etag"@, seq!['"'] + spec_blake3_hex(data) + seq!['"']))
}

/// The views of a list of header pairs.
pub open spec fn pair_texts(v: Seq<(String, String)>) -> Seq<(Seq<char>, Seq<char>)> {
    v.map_values(|p: (String, String)| (p.0@, p.1@))
}

/// The headers of a served asset (see `asset_header_list`).
pub fn asset_headers(content_type: &str, data: &[u8]) -> (r: Vec<(String, String)>)
    ensures
        pair_texts(r@) == asset_header_list(content_type@, data@),
{
    let mut v: Vec<(String, String)> = Vec::new();
    v.push((lit("content-type"), crate::text::copy_string(content_type)));
    if str_eq(content_type, "text/html") {
        v.push(
            (
                lit("Content-Security-Policy"),
                lit(
                    "default-src 'self'; script-src 'self' 'unsafe-inline' 'unsafe-eval'; style-src 'self' 'unsafe-inline'; img-src 'self' data: https:; font-src 'self' data:; connect-src 'self'",
                ),
            ),
        );
        v.push((lit("X-Content-Type-Options"), lit("nosniff")));
        v.push((lit("X-Frame-Options"), lit("SAMEORIGIN")));
        v.push((lit("Referrer-Policy"), lit("strict-origin-when-cross-origin")));
        v.push((lit("cache-control"), lit("public, max-age=3600, must-revalidate")));
    } else {
        v.push((lit("cache-control"), lit("public, max-age=31536000, immutable")));
    }
    let hex = blake3_hex(data);
    let hc = chars_of(hex.as_str());
    let mut tag: Vec<char> = Vec::new();
    tag.push('"');
    crate::text::push_all(&mut tag, hc.as_slice());
    tag.push('"');
    v.push((lit("etag"), string_from_chars(tag.as_slice())));
    proof {
        assert(tag@ =~= seq!['"'] + spec_blake3_hex(data@) + seq!['"']);
    }
    assert(pair_texts(v@) =~= asset_header_list(content_type@, data@));
    v
}

/// The HTML error page for `status` with `message`.
pub open spec fn error_page_text(status: u16, message: Seq<char>) -> Seq<char> {
    "<!DOCTYPE html>\n<html>\n<head>\n    <title>"@ + decimal(status as nat)
        + " - Error</title>\n    <style>\n        body { font-family: sans-serif; text-align: center; margin-top: 100px; }\n        h1 { color: #dc2626; }\n    </style>\n</head>\n<body>\n    <h1>"@
        + decimal(status as nat) + " - Error</h1>\n    <p>"@ + message
        + "</p>\n    <p><a href=\"/\">Return to Gateway Home</a></p>\n</body>\n</html>"@
}

/// The HTML error page for `status` with `message`.
pub fn error_page(status: u16, message: &str) -> (r: String)
    ensures
        r@ == error_page_text(status, message@),
{
    let d = decimal_chars(status as u64);
    let ds = string_from_chars(d.as_slice());
    let mut page = lit("<!DOCTYPE html>\n<html>\n<head>\n    <title>");
    page.append(ds.as_str());
    page.append(
        " - Error</title>\n    <style>\n        body { font-family: sans-serif; text-align: center; margin-top: 100px; }\n        h1 { color: #dc2626; }\n    </style>\n</head>\n<body>\n    <h1>",
    );
    page.append(ds.as_str());
    page.append(" - Error</h1>\n    <p>");
    page.append(message);
    page.append("</p>\n    <p><a href=\"/\">Return to Gateway Home</a></p>\n</body>\n</html>");
    page
}

spec fn from_end(s: Seq<char>, j: int) -> char {
    s[s.len() - 1 - j]
}

proof fn lemma_same_end(p: Seq<char>, s: Seq<char>, j: int)
    requires
        seq_ends_with(p, s),
        0 <= j < s.len(),
    ensures
        from_end(p, j) == from_end(s, j),
{
    assert(p.skip(p.len() - s.len())[s.len() - 1 - j] == p[p.len() - 1 - j]);
}

/// A path is served by its file ending with that ending's standard MIME
/// type (HTML, XML, CSS, JavaScript, JSON, the image and font types,
/// WebAssembly, plain text, Markdown), whatever comes before the ending;
/// a path with none of these endings is served as
/// `application/octet-stream`.
pub proof fn lemma_suffix_mime_types(p: Seq<char>)
    ensures
        seq_ends_with(p, ".html"@) ==> content_type_by_suffix(p) == "text/html"@,
        seq_ends_with(p, ".htm"@) ==> content_type_by_suffix(p) == "text/html"@,
        seq_ends_with(p, ".xml"@) ==> content_type_by_suffix(p) == "application/xml"@,
        seq_ends_with(p, ".css"@) ==> content_type_by_suffix(p) == "text/css"@,
        seq_ends_with(p, ".js"@) ==> content_type_by_suffix(p) == "application/javascript"@,
        seq_ends_with(p, ".mjs"@) ==> content_type_by_suffix(p) == "application/javascript"@,
        seq_ends_with(p, ".json"@) ==> content_type_by_suffix(p) == "application/json"@,
        seq_ends_with(p, ".png"@) ==> content_type_by_suffix(p) == "image/png"@,
        seq_ends_with(p, ".jpg"@) ==> content_type_by_suffix(p) == "image/jpeg"@,
        seq_ends_with(p, ".jpeg"@) ==> content_type_by_suffix(p) == "image/jpeg"@,
        seq_ends_with(p, ".gif"@) ==> content_type_by_suffix(p) == "image/gif"@,
        seq_ends_with(p, ".svg"@) ==> content_type_by_suffix(p) == "image/svg+xml"@,
        seq_ends_with(p, ".webp"@) ==> content_type_by_suffix(p) == "image/webp"@,
        seq_ends_with(p, ".ico"@) ==> content_type_by_suffix(p) == "image/x-icon"@,
        seq_ends_with(p, ".woff"@) ==> content_type_by_suffix(p) == "font/woff"@,
        seq_ends_with(p, ".woff2"@) ==> content_type_by_suffix(p) == "font/woff2"@,
        seq_ends_with(p, ".ttf"@) ==> content_type_by_suffix(p) == "font/ttf"@,
        seq_ends_with(p, ".otf"@) ==> content_type_by_suffix(p) == "font/otf"@,
        seq_ends_with(p, ".wasm"@) ==> content_type_by_suffix(p) == "application/wasm"@,
        seq_ends_with(p, ".txt"@) ==> content_type_by_suffix(p) == "text/plain"@,
        seq_ends_with(p, ".md"@) ==> content_type_by_suffix(p) == "text/markdown"@,
        !(seq_ends_with(p, ".html"@) || seq_ends_with(p, ".htm"@) || seq_ends_with(p, ".xml"@) || seq_ends_with(p, ".css"@) || seq_ends_with(p, ".js"@) || seq_ends_with(p, ".mjs"@) || seq_ends_with(p, ".json"@) || seq_ends_with(p, ".png"@) || seq_ends_with(p, ".jpg"@) || seq_ends_with(p, ".jpeg"@) || seq_ends_with(p, ".gif"@) || seq_ends_with(p, ".svg"@) || seq_ends_with(p, ".webp"@) || seq_ends_with(p, ".ico"@) || seq_ends_with(p, ".woff"@) || seq_ends_with(p, ".woff2"@) || seq_ends_with(p, ".ttf"@) || seq_ends_with(p, ".otf"@) || seq_ends_with(p, ".wasm"@) || seq_ends_with(p, ".txt"@) || seq_ends_with(p, ".md"@)) ==> content_type_by_suffix(p) == "application/octet-stream"@,
{
    reveal_strlit(".html");
    assert(".html"@.len() == 5);
    assert(from_end(".html"@, 0) == 'l');
    assert(from_end(".html"@, 1) == 'm');
    assert(from_end(".html"@, 2) == 't');
    reveal_strlit(".htm");
    assert(".htm"@.len() == 4);
    assert(from_end(".htm"@, 0) == 'm');
    assert(from_end(".htm"@, 1) == 't');
    assert(from_end(".htm"@, 2) == 'h');
    reveal_strlit(".xml");
    assert(".xml"@.len() == 4);
    assert(from_end(".xml"@, 0) == 'l');
    assert(from_end(".xml"@, 1) == 'm');
    assert(from_end(".xml"@, 2) == 'x');
    reveal_strlit(".css");
    assert(".css"@.len() == 4);
    assert(from_end(".css"@, 0) == 's');
    assert(from_end(".css"@, 1) == 's');
    assert(from_end(".css"@, 2) == 'c');
    reveal_strlit(".js");
    assert(".js"@.len() == 3);
    assert(from_end(".js"@, 0) == 's');
    assert(from_end(".js"@, 1) == 'j');
    assert(from_end(".js"@, 2) == '.');
    reveal_strlit(".mjs");
    assert(".mjs"@.len() == 4);
    assert(from_end(".mjs"@, 0) == 's');
    assert(from_end(".mjs"@, 1) == 'j');
    assert(from_end(".mjs"@, 2) == 'm');
    reveal_strlit(".json");
    assert(".json"@.len() == 5);
    assert(from_end(".json"@, 0) == 'n');
    assert(from_end(".json"@, 1) == 'o');
    assert(from_end(".json"@, 2) == 's');
    reveal_strlit(".png");
    assert(".png"@.len() == 4);
    assert(from_end(".png"@, 0) == 'g');
    assert(from_end(".png"@, 1) == 'n');
    assert(from_end(".png"@, 2) == 'p');
    reveal_strlit(".jpg");
    assert(".jpg"@.len() == 4);
    assert(from_end(".jpg"@, 0) == 'g');
    assert(from_end(".jpg"@, 1) == 'p');
    assert(from_end(".jpg"@, 2) == 'j');
    reveal_strlit(".jpeg");
    assert(".jpeg"@.len() == 5);
    assert(from_end(".jpeg"@, 0) == 'g');
    assert(from_end(".jpeg"@, 1) == 'e');
    assert(from_end(".jpeg"@, 2) == 'p');
    reveal_strlit(".gif");
    assert(".gif"@.len() == 4);
    assert(from_end(".gif"@, 0) == 'f');
    assert(from_end(".gif"@, 1) == 'i');
    assert(from_end(".gif"@, 2) == 'g');
    reveal_strlit(".svg");
    assert(".svg"@.len() == 4);
    assert(from_end(".svg"@, 0) == 'g');
    assert(from_end(".svg"@, 1) == 'v');
    assert(from_end(".svg"@, 2) == 's');
    reveal_strlit(".webp");
    assert(".webp"@.len() == 5);
    assert(from_end(".webp"@, 0) == 'p');
    assert(from_end(".webp"@, 1) == 'b');
    assert(from_end(".webp"@, 2) == 'e');
    reveal_strlit(".ico");
    assert(".ico"@.len() == 4);
    assert(from_end(".ico"@, 0) == 'o');
    assert(from_end(".ico"@, 1) == 'c');
    assert(from_end(".ico"@, 2) == 'i');
    reveal_strlit(".woff");
    assert(".woff"@.len() == 5);
    assert(from_end(".woff"@, 0) == 'f');
    assert(from_end(".woff"@, 1) == 'f');
    assert(from_end(".woff"@, 2) == 'o');
    reveal_strlit(".woff2");
    assert(".woff2"@.len() == 6);
    assert(from_end(".woff2"@, 0) == '2');
    assert(from_end(".woff2"@, 1) == 'f');
    assert(from_end(".woff2"@, 2) == 'f');
    reveal_strlit(".ttf");
    assert(".ttf"@.len() == 4);
    assert(from_end(".ttf"@, 0) == 'f');
    assert(from_end(".ttf"@, 1) == 't');
    assert(from_end(".ttf"@, 2) == 't');
    reveal_strlit(".otf");
    assert(".otf"@.len() == 4);
    assert(from_end(".otf"@, 0) == 'f');
    assert(from_end(".otf"@, 1) == 't');
    assert(from_end(".otf"@, 2) == 'o');
    reveal_strlit(".wasm");
    assert(".wasm"@.len() == 5);
    assert(from_end(".wasm"@, 0) == 'm');
    assert(from_end(".wasm"@, 1) == 's');
    assert(from_end(".wasm"@, 2) == 'a');
    reveal_strlit(".txt");
    assert(".txt"@.len() == 4);
    assert(from_end(".txt"@, 0) == 't');
    assert(from_end(".txt"@, 1) == 'x');
    assert(from_end(".txt"@, 2) == 't');
    reveal_strlit(".md");
    assert(".md"@.len() == 3);
    assert(from_end(".md"@, 0) == 'd');
    assert(from_end(".md"@, 1) == 'm');
    assert(from_end(".md"@, 2) == '.');
    assert forall|s: Seq<char>, j: int| seq_ends_with(p, s) && 0 <= j < s.len() implies from_end(p, j)
        == #[trigger] from_end(s, j) by {
        lemma_same_end(p, s, j);
    }
}

/// A served asset's headers begin with its content type and end with its
/// ETag, the quoted BLAKE3 digest of its bytes. An HTML asset gets the page
/// security headers (`nosniff`, `SAMEORIGIN`, a strict referrer policy and
/// the content security policy) and is cached for an hour and revalidated;
/// any other asset is cached for a year as immutable, with no other header.
pub proof fn lemma_asset_header_rules(content_type: Seq<char>, data: Seq<u8>)
    ensures
        ({
            let h = asset_header_list(content_type, data);
            &&& h[0] == ("content-type"@, content_type)
            &&& h.last() == ("etag"@, seq!['"'] + spec_blake3_hex(data) + seq!['"'])
            &&& content_type == "text/html"@ ==> {
                &&& h.len() == 7
                &&& h.contains(("Content-Security-Policy"@, page_csp()))
                &&& h.contains(("X-Content-Type-Options"@, "nosniff"@))
                &&& h.contains(("X-Frame-Options"@, "SAMEORIGIN"@))
                &&& h.contains(("Referrer-Policy"@, "strict-origin-when-cross-origin"@))
                &&& h.contains(("cache-control"@, "public, max-age=3600, must-revalidate"@))
            }
            &&& content_type != "text/html"@ ==> {
                &&& h.len() == 3
                &&& h[1] == ("cache-control"@, "public, max-age=31536000, immutable"@)
            }
        }),
{
    let h = asset_header_list(content_type, data);
    if content_type == "text/html"@ {
        assert(h[1] == ("Content-Security-Policy"@, page_csp()));
        assert(h[2] == ("X-Content-Type-Options"@, "nosniff"@));
        assert(h[3] == ("X-Frame-Options"@, "SAMEORIGIN"@));
        assert(h[4] == ("Referrer-Policy"@, "strict-origin-when-cross-origin"@));
        assert(h[5] == ("cache-control"@, "public, max-age=3600, must-revalidate"@));
    }
}

/// An archive is taken for TAR exactly when it has the POSIX `ustar` magic,
/// the ASCII bytes `u s t a r`, at offset 257.
pub proof fn lemma_tar_magic(bytes: Seq<u8>)
    ensures
        tar_bytes(bytes) <==> bytes.len() >= 262 && bytes[257] == 0x75 && bytes[258] == 0x73
            && bytes[259] == 0x74 && bytes[260] == 0x61 && bytes[261] == 0x72,
{
    if bytes.len() >= 262 && bytes[257] == 0x75 && bytes[258] == 0x73 && bytes[259] == 0x74
        && bytes[260] == 0x61 && bytes[261] == 0x72 {
        assert(bytes.subrange(257, 262) =~= ustar());
    }
    if tar_bytes(bytes) {
        assert(bytes.subrange(257, 262)[0] == bytes[257]);
        assert(bytes.subrange(257, 262)[1] == bytes[258]);
        assert(bytes.subrange(257, 262)[2] == bytes[259]);
        assert(bytes.subrange(257, 262)[3] == bytes[260]);
        assert(bytes.subrange(257, 262)[4] == bytes[261]);
    }
}

/// An archive entry named like the requested file answers it, with or
/// without the request's leading slashes; a request for a directory (empty,
/// or ending in `/` once the leading slashes are dropped) is answered by
/// that directory's `index.html`.
pub proof fn lemma_entry_answers_request(file: Seq<char>)
    ensures
        entry_answers(file, file),
        entry_answers(trim_leading(file, '/'), file),
        ({
            let n = trim_leading(file, '/');
            (n.len() == 0 || n.last() == '/') ==> entry_answers(n + "index.html"@, file)
        }),
{
}

} // verus!
