//! Serving a module's bytes as a web application: its front page and its
//! static files, from an application bundle, a TAR archive or a single
//! file.

use vstd::prelude::*;
use vstd::string::StringExecFns;
use crate::bundle::{AppBundle, texts, content_type_of, lemma_extension_mime_types};
use crate::gateway::api::{HttpReply, join_texts, status_or_ok};
use crate::gateway::handler::{
    asset_header_list, asset_headers, error_page, error_page_text, extract_from_tar,
    guess_content_type, content_type_by_suffix, is_tar_archive, page_csp,
    pair_texts, tar_lookup, tar_bytes, blake3_hex, spec_blake3_hex, lemma_suffix_mime_types,
};
use crate::paths::spec_path_extension;
use crate::security::trim_leading;
use crate::text::{
    chars_of, lit, str_eq, has_char, seq_join, decimal, decimal_chars, string_from_chars,
    copy_bytes, utf8, text_bytes, seq_ends_with,
};

verus! {

/// A reply serving an asset: 200, its content type, and the asset headers
/// after the content type (see `asset_header_list`).
pub open spec fn asset_reply_is(r: HttpReply, data: Seq<u8>, content_type: Seq<char>) -> bool {
    &&& r.status == 200
    &&& r.content_type@ == content_type
    &&& pair_texts(r.headers@) == asset_header_list(content_type, data).drop_first()
    &&& r.body@ == data
}

/// The reply serving an asset with the given content type.
pub fn asset_reply(data: &[u8], content_type: &str) -> (r: HttpReply)
    ensures
        asset_reply_is(r, data@, content_type@),
{
    let mut headers = asset_headers(content_type, data);
    let ghost all = headers@;
    headers.remove(0);
    proof {
        assert(pair_texts(headers@) =~= pair_texts(all).drop_first());
    }
    HttpReply { status: 200, content_type: lit(content_type), headers, body: copy_bytes(data) }
}

/// The headers of a served page besides its content type.
pub open spec fn page_headers() -> Seq<(Seq<char>, Seq<char>)> {
    seq![
        ("Content-Security-Policy"@, page_csp()),
        ("X-Content-Type-Options"@, "nosniff"@),
        ("X-Frame-Options"@, "SAMEORIGIN"@),
        ("Referrer-Policy"@, "strict-origin-when-cross-origin"@),
        ("cache-control"@, "public, max-age=3600, must-revalidate"@),
    ]
}

/// The reply serving an HTML page: 200, `text/html`, the page headers.
pub fn html_reply(data: Vec<u8>) -> (r: HttpReply)
    ensures
        r.status == 200,
        r.content_type@ == "text/html"@,
        pair_texts(r.headers@) == page_headers(),
        r.body@ == data@,
{
    let mut v: Vec<(String, String)> = Vec::new();
    v.push(
        (
            lit("Content-Security-Policy"),
            lit(
                "default-src 'self'; script-src 'self' 'unsafe-inline' 'unsafe-eval'; style-src 'self' 'unsafe-inline'; img-src 'self' data: https:; font-src 'self' data:; connect-src 'self'",
            ),
        ),
    );
    v.push((lit("X-Content-Type-Options"), lit("nosniff")));
    v.push((lit("X-Frame-Options"), lit("SAMEORIGIN")));
    v.push((lit("Referrer-Policy"), lit("strict-origin-when-cross-origin")));
    v.push((lit("cache-control"), lit("public, max-age=3600, must-revalidate")));
    assert(pair_texts(v@) =~= page_headers());
    HttpReply { status: 200, content_type: lit("text/html"), headers: v, body: data }
}

/// A reply with the HTML error page for `status` and `message`.
pub open spec fn error_reply_is(r: HttpReply, status: u16, message: Seq<char>) -> bool {
    &&& r.status == status
    &&& r.content_type@ == "text/html"@
    &&& r.headers@.len() == 0
    &&& r.body@ == utf8(error_page_text(status, message))
}

/// The reply with the HTML error page for `status` and `message`.
pub fn error_reply(status: u16, message: &str) -> (r: HttpReply)
    ensures
        error_reply_is(r, status, message@),
{
    let page = error_page(status, message);
    HttpReply { status, content_type: lit("text/html"), headers: Vec::new(), body: text_bytes(page.as_str()) }
}

/// The page shown for a module with no front page: its size and whether it
/// is a TAR bundle or a single WebAssembly file.
pub open spec fn listing_text(size: nat, tar: bool) -> Seq<char> {
    "<!DOCTYPE html>\n<html>\n<head>\n    <title>Pied Piper App</title>\n    <style>\n        body { font-family: sans-serif; max-width: 800px; margin: 50px auto; padding: 20px; }\n        h1 { color: #2563eb; }\n        .info { background: #f3f4f6; padding: 15px; border-radius: 8px; margin: 20px 0; }\n    </style>\n</head>\n<body>\n    <h1>\u{1f680} WebAssembly Application</h1>\n    <div class=\"info\">\n        <p><strong>This application is served from the Pied Piper network!</strong></p>\n        <p>Module size: "@
        + decimal(size) + " bytes</p>\n        <p>Content type: "@ + (if tar {
        "TAR bundle"@
    } else {
        "Single WASM file"@
    })
        + "</p>\n    </div>\n    <p><em>To serve a complete web application, bundle your HTML, CSS, JS, and WASM files into a TAR archive with an index.html file.</em></p>\n</body>\n</html>"@
}

/// The page shown for a module with no front page (see `listing_text`).
pub fn app_listing(bytes: &[u8]) -> (r: HttpReply)
    ensures
        r.status == 200,
        r.content_type@ == "text/html"@,
        r.headers@.len() == 0,
        r.body@ == utf8(listing_text(bytes@.len(), tar_bytes(bytes@))),
{
    let n = string_from_chars(decimal_chars(bytes.len() as u64).as_slice());
    let mut page = lit(
        "<!DOCTYPE html>\n<html>\n<head>\n    <title>Pied Piper App</title>\n    <style>\n        body { font-family: sans-serif; max-width: 800px; margin: 50px auto; padding: 20px; }\n        h1 { color: #2563eb; }\n        .info { background: #f3f4f6; padding: 15px; border-radius: 8px; margin: 20px 0; }\n    </style>\n</head>\n<body>\n    <h1>\u{1f680} WebAssembly Application</h1>\n    <div class=\"info\">\n        <p><strong>This application is served from the Pied Piper network!</strong></p>\n        <p>Module size: ",
    );
    page.append(n.as_str());
    page.append(" bytes</p>\n        <p>Content type: ");
    if is_tar_archive(bytes) {
        page.append("TAR bundle");
    } else {
        page.append("Single WASM file");
    }
    page.append(
        "</p>\n    </div>\n    <p><em>To serve a complete web application, bundle your HTML, CSS, JS, and WASM files into a TAR archive with an index.html file.</em></p>\n</body>\n</html>",
    );
    HttpReply { status: 200, content_type: lit("text/html"), headers: Vec::new(), body: text_bytes(page.as_str()) }
}

/// The content type a bundle asset is served with, by its extension.
pub open spec fn path_content_type(p: Seq<char>) -> Seq<char> {
    content_type_of(
        match spec_path_extension(p) {
            Some(e) => e,
            None => Seq::empty(),
        },
    )
}

/// The reply for `path` (leading slashes dropped) from a bundle: the asset
/// when there is one; else, for a path without a `.`, the bundle's
/// `index.html` as HTML when it has one; else a 404 naming the available
/// assets (the message says `Asset` for the front page, `File` for a
/// static file).
pub open spec fn bundle_reply_is(
    r: HttpReply,
    assets: Map<Seq<char>, Vec<u8>>,
    paths: Seq<Seq<char>>,
    p: Seq<char>,
    frontend: bool,
) -> bool {
    if assets.contains_key(p) {
        asset_reply_is(r, assets[p]@, path_content_type(p))
    } else if !p.contains('.') && assets.contains_key("index.html"@) {
        asset_reply_is(r, assets["index.html"@]@, "text/html"@)
    } else {
        error_reply_is(
            r,
            404,
            (if frontend {
                "Asset '"@
            } else {
                "File '"@
            }) + p + "' not found in bundle. Available assets: "@ + seq_join(paths, ", "@),
        )
    }
}

fn trim_slashes(path: &str) -> (r: String)
    ensures
        r@ == trim_leading(path@, '/'),
{
    let c = chars_of(path);
    let mut i: usize = 0;
    assert(c@.skip(0) =~= c@);
    while i < c.len() && c[i] == '/'
        invariant
            0 <= i <= c@.len(),
            c@ == path@,
            trim_leading(c@.skip(i as int), '/') == trim_leading(c@, '/'),
        decreases c@.len() - i,
    {
        proof {
            assert(c@.skip(i as int).drop_first() =~= c@.skip(i + 1));
        }
        i = i + 1;
    }
    let rest = crate::text::chars_from(c.as_slice(), i);
    proof {
        if rest@.len() > 0 {
            assert(rest@[0] == c@[i as int]);
        }
    }
    string_from_chars(rest.as_slice())
}

fn bundle_reply(bundle: &AppBundle, p: &str, frontend: bool) -> (r: HttpReply)
    ensures
        bundle_reply_is(r, bundle.assets@, texts(bundle.metadata.asset_paths@), p@, frontend),
{
    match bundle.get_asset(p) {
        Some(data) => asset_reply(data.as_slice(), AppBundle::content_type_for_path(p)),
        None => {
            let has_dot = has_char(chars_of(p).as_slice(), '.');
            if !has_dot {
                match bundle.get_asset("index.html") {
                    Some(index) => {
                        proof {
                            reveal_strlit("text/html");
                        }
                        return asset_reply(index.as_slice(), "text/html");
                    },
                    None => {},
                }
            }
            let list = join_texts(&bundle.asset_paths(), ", ");
            let mut message = if frontend {
                lit("Asset '")
            } else {
                lit("File '")
            };
            message.append(p);
            message.append("' not found in bundle. Available assets: ");
            message.append(list.as_str());
            error_reply(404, message.as_str())
        },
    }
}

/// The bundle asset asked for on the front page: `index.html` for the
/// root, else the path without its leading slashes.
pub open spec fn front_asset(path: Seq<char>) -> Seq<char> {
    if path.len() == 0 || path == "/"@ {
        "index.html"@
    } else {
        trim_leading(path, '/')
    }
}

/// The reply for the front page at `path` of a module with bytes `b`,
/// given the bundle they decode to, if any: the bundle's asset (see
/// `bundle_reply_is`); for a TAR archive the file asked for (`index.html`
/// at the root) as HTML, or the listing page when it is missing or the
/// archive unreadable; for anything else the listing page.
pub open spec fn frontend_reply_is(r: HttpReply, b: Seq<u8>, bundle: Option<AppBundle>, path: Seq<char>) -> bool {
    match bundle {
        Some(bd) => bundle_reply_is(r, bd.assets@, texts(bd.metadata.asset_paths@), front_asset(path), true),
        None => {
            let listing = r.status == 200 && r.content_type@ == "text/html"@ && r.headers@.len() == 0
                && r.body@ == utf8(listing_text(b.len(), tar_bytes(b)));
            if tar_bytes(b) {
                let file = if path.len() == 0 || path == "/"@ {
                    "index.html"@
                } else {
                    path
                };
                match tar_lookup(b, file) {
                    Some(Some(d)) => r.status == 200 && r.content_type@ == "text/html"@ && pair_texts(
                        r.headers@,
                    ) == page_headers() && r.body@ == d,
                    _ => listing,
                }
            } else {
                listing
            }
        },
    }
}

/// The reply for the front page at `path` (see `frontend_reply_is`);
/// `bundle` is what the bytes decode to as an application bundle, if
/// anything.
pub fn frontend_reply(bytes: &[u8], bundle: Option<&AppBundle>, path: &str) -> (r: HttpReply)
    ensures
        frontend_reply_is(
            r,
            bytes@,
            match bundle {
                Some(b) => Some(*b),
                None => None,
            },
            path@,
        ),
{
    proof {
        reveal_strlit("/");
        reveal_strlit("index.html");
    }
    let root = chars_of(path).len() == 0 || str_eq(path, "/");
    match bundle {
        Some(b) => {
            if root {
                bundle_reply(b, "index.html", true)
            } else {
                let p = trim_slashes(path);
                bundle_reply(b, p.as_str(), true)
            }
        },
        None => {
            if is_tar_archive(bytes) {
                let file = if root {
                    "index.html"
                } else {
                    path
                };
                match extract_from_tar(bytes, file) {
                    Ok(Some(d)) => html_reply(d),
                    _ => app_listing(bytes),
                }
            } else {
                app_listing(bytes)
            }
        },
    }
}

/// The reply for the static file at `path` of a module with bytes `b`,
/// given the bundle they decode to, if any: the bundle's asset (see
/// `bundle_reply_is`); for a TAR archive the file (leading slashes
/// dropped) with a year's caching and an ETag, a 404 when it is missing,
/// a 500 when the archive is unreadable; for anything else the bytes
/// themselves, served the same way. The content type goes by the path's
/// ending (see `content_type_by_suffix`).
pub open spec fn static_reply_is(r: HttpReply, b: Seq<u8>, bundle: Option<AppBundle>, path: Seq<char>) -> bool {
    let p = trim_leading(path, '/');
    let ct = content_type_by_suffix(path);
    match bundle {
        Some(bd) => bundle_reply_is(r, bd.assets@, texts(bd.metadata.asset_paths@), p, false),
        None => if tar_bytes(b) {
            match tar_lookup(b, p) {
                Some(Some(d)) => file_reply_is(r, d, ct),
                Some(None) => error_reply_is(r, 404, "File '"@ + p + "' not found in bundle"@),
                None => error_reply_is(r, 500, "Failed to extract file from bundle"@),
            }
        } else {
            file_reply_is(r, b, ct)
        },
    }
}

/// A reply serving a file: 200, its content type, a year's immutable
/// caching and an ETag of its BLAKE3 digest.
pub open spec fn file_reply_is(r: HttpReply, data: Seq<u8>, content_type: Seq<char>) -> bool {
    &&& r.status == 200
    &&& r.content_type@ == content_type
    &&& pair_texts(r.headers@) == seq![
        ("cache-control"@, "public, max-age=31536000, immutable"@),
        ("etag"@, seq!['"'] + spec_blake3_hex(data) + seq!['"']),
    ]
    &&& r.body@ == data
}

fn cached_file(data: &[u8], content_type: &str) -> (r: HttpReply)
    ensures
        file_reply_is(r, data@, content_type@),
{
    let hex = blake3_hex(data);
    let mut tag = lit("\"");
    tag.append(hex.as_str());
    tag.append("\"");
    let mut v: Vec<(String, String)> = Vec::new();
    v.push((lit("cache-control"), lit("public, max-age=31536000, immutable")));
    v.push((lit("etag"), tag));
    proof {
        reveal_strlit("\"");
        assert(v@[1].1@ =~= seq!['"'] + spec_blake3_hex(data@) + seq!['"']);
        assert(pair_texts(v@) =~= seq![
            ("cache-control"@, "public, max-age=31536000, immutable"@),
            ("etag"@, seq!['"'] + spec_blake3_hex(data@) + seq!['"']),
        ]);
    }
    HttpReply { status: 200, content_type: lit(content_type), headers: v, body: copy_bytes(data) }
}

/// The reply for the static file at `path` (see `static_reply_is`).
pub fn static_reply(bytes: &[u8], bundle: Option<&AppBundle>, path: &str) -> (r: HttpReply)
    ensures
        static_reply_is(
            r,
            bytes@,
            match bundle {
                Some(b) => Some(*b),
                None => None,
            },
            path@,
        ),
{
    let content_type = guess_content_type(path);
    let p = trim_slashes(path);
    match bundle {
        Some(b) => bundle_reply(b, p.as_str(), false),
        None => {
            if is_tar_archive(bytes) {
                match extract_from_tar(bytes, p.as_str()) {
                    Ok(Some(d)) => cached_file(d.as_slice(), content_type),
                    Ok(None) => {
                        let mut message = lit("File '");
                        message.append(p.as_str());
                        message.append("' not found in bundle");
                        error_reply(404, message.as_str())
                    },
                    Err(()) => error_reply(500, "Failed to extract file from bundle"),
                }
            } else {
                cached_file(bytes, content_type)
            }
        },
    }
}

/// An HTML asset carries exactly the headers of a served page, between its
/// content type and its ETag.
pub proof fn lemma_html_asset_has_page_headers(data: Seq<u8>)
    ensures
        asset_header_list("text/html"@, data) == seq![("content-type"@, "text/html"@)] + page_headers()
            + seq![("etag"@, seq!['"'] + spec_blake3_hex(data) + seq!['"'])],
{
    assert(asset_header_list("text/html"@, data) =~= seq![("content-type"@, "text/html"@)]
        + page_headers() + seq![("etag"@, seq!['"'] + spec_blake3_hex(data) + seq!['"'])]);
}

/// The gateway's file-ending table and the bundle's extension table agree:
/// a path ending in `.` and an extension both know is served with the type
/// the bundle gives that extension.
pub proof fn lemma_suffix_and_extension_types_agree(p: Seq<char>, e: Seq<char>)
    requires
        e == "html"@ || e == "htm"@ || e == "css"@ || e == "js"@ || e == "mjs"@ || e == "json"@ || e == "png"@ || e == "jpg"@ || e == "jpeg"@ || e == "gif"@ || e == "svg"@ || e == "wasm"@ || e == "txt"@ || e == "xml"@ || e == "woff"@ || e == "woff2"@ || e == "ttf"@ || e == "ico"@,
        seq_ends_with(p, seq!['.'] + e),
    ensures
        content_type_by_suffix(p) == content_type_of(e),
{
    reveal_strlit("html");
    reveal_strlit(".html");
    assert(seq!['.'] + "html"@ =~= ".html"@);
    reveal_strlit("htm");
    reveal_strlit(".htm");
    assert(seq!['.'] + "htm"@ =~= ".htm"@);
    reveal_strlit("css");
    reveal_strlit(".css");
    assert(seq!['.'] + "css"@ =~= ".css"@);
    reveal_strlit("js");
    reveal_strlit(".js");
    assert(seq!['.'] + "js"@ =~= ".js"@);
    reveal_strlit("mjs");
    reveal_strlit(".mjs");
    assert(seq!['.'] + "mjs"@ =~= ".mjs"@);
    reveal_strlit("json");
    reveal_strlit(".json");
    assert(seq!['.'] + "json"@ =~= ".json"@);
    reveal_strlit("png");
    reveal_strlit(".png");
    assert(seq!['.'] + "png"@ =~= ".png"@);
    reveal_strlit("jpg");
    reveal_strlit(".jpg");
    assert(seq!['.'] + "jpg"@ =~= ".jpg"@);
    reveal_strlit("jpeg");
    reveal_strlit(".jpeg");
    assert(seq!['.'] + "jpeg"@ =~= ".jpeg"@);
    reveal_strlit("gif");
    reveal_strlit(".gif");
    assert(seq!['.'] + "gif"@ =~= ".gif"@);
    reveal_strlit("svg");
    reveal_strlit(".svg");
    assert(seq!['.'] + "svg"@ =~= ".svg"@);
    reveal_strlit("wasm");
    reveal_strlit(".wasm");
    assert(seq!['.'] + "wasm"@ =~= ".wasm"@);
    reveal_strlit("txt");
    reveal_strlit(".txt");
    assert(seq!['.'] + "txt"@ =~= ".txt"@);
    reveal_strlit("xml");
    reveal_strlit(".xml");
    assert(seq!['.'] + "xml"@ =~= ".xml"@);
    reveal_strlit("woff");
    reveal_strlit(".woff");
    assert(seq!['.'] + "woff"@ =~= ".woff"@);
    reveal_strlit("woff2");
    reveal_strlit(".woff2");
    assert(seq!['.'] + "woff2"@ =~= ".woff2"@);
    reveal_strlit("ttf");
    reveal_strlit(".ttf");
    assert(seq!['.'] + "ttf"@ =~= ".ttf"@);
    reveal_strlit("ico");
    reveal_strlit(".ico");
    assert(seq!['.'] + "ico"@ =~= ".ico"@);
    lemma_suffix_mime_types(p);
    lemma_extension_mime_types(e);
}

} // verus!
