//! Application bundles: a module with its static assets.

use vstd::prelude::*;
use crate::assoc::TextMap;
use crate::paths::{spec_path_extension, path_extension};
use crate::text::{
    chars_of, str_eq, copy_string, copy_bytes, seq_starts_with, seq_has_infix, has_infix,
};

verus! {

/// A module with its static assets.
#[derive(Debug)]
pub struct AppBundle {
    /// Main module
    pub wasm_module: Vec<u8>,
    /// Static assets (HTML, CSS, JS, images, etc.), by relative path
    pub assets: TextMap<Vec<u8>>,
    /// Bundle metadata
    pub metadata: BundleMetadata,
}

/// What is known of a bundle.
#[derive(Debug, Clone)]
pub struct BundleMetadata {
    /// Application name
    pub name: String,
    /// Version
    pub version: String,
    /// Entry point (file name of the main module)
    pub entry_point: String,
    /// Asset paths, in the order they were found
    pub asset_paths: Vec<String>,
    /// Total bundle size
    pub total_size: usize,
    /// Creation time, in seconds since the Unix epoch
    pub created_at: u64,
}

/// The sum of the sizes of the values of a list of pairs.
pub open spec fn values_size(s: Seq<(String, Vec<u8>)>) -> nat
    decreases s.len(),
{
    if s.len() == 0 {
        0
    } else {
        values_size(s.drop_last()) + s.last().1@.len()
    }
}

/// The texts of a list of strings.
pub open spec fn texts(v: Seq<String>) -> Seq<Seq<char>> {
    v.map_values(|s: String| s@)
}

/// The keys of a list of pairs, as texts.
pub open spec fn pair_keys(v: Seq<(String, Vec<u8>)>) -> Seq<Seq<char>> {
    v.map_values(|p: (String, Vec<u8>)| p.0@)
}

/// The map a list of (path, content) pairs gives, a later path winning.
pub open spec fn assets_of(v: Seq<(String, Vec<u8>)>) -> Map<Seq<char>, Seq<u8>>
    decreases v.len(),
{
    if v.len() == 0 {
        Map::empty()
    } else {
        assets_of(v.drop_last()).insert(v.last().0@, v.last().1@)
    }
}

/// The contents of a bundle's assets, as bytes.
pub open spec fn asset_bytes(m: Map<Seq<char>, Vec<u8>>) -> Map<Seq<char>, Seq<u8>> {
    m.map_values(|v: Vec<u8>| v@)
}

/// The content type served for a file extension.
pub open spec fn content_type_of(e: Seq<char>) -> Seq<char> {
    if e == "html"@ || e == "htm"@ {
        "text/html"@
    } else if e == "css"@ {
        "text/css"@
    } else if e == "js"@ || e == "mjs"@ {
        "application/javascript"@
    } else if e == "json"@ {
        "application/json"@
    } else if e == "png"@ {
        "image/png"@
    } else if e == "jpg"@ || e == "jpeg"@ {
        "image/jpeg"@
    } else if e == "gif"@ {
        "image/gif"@
    } else if e == "svg"@ {
        "image/svg+xml"@
    } else if e == "wasm"@ {
        "application/wasm"@
    } else if e == "txt"@ {
        "text/plain"@
    } else if e == "xml"@ {
        "application/xml"@
    } else if e == "pdf"@ {
        "application/pdf"@
    } else if e == "woff"@ {
        "font/woff"@
    } else if e == "woff2"@ {
        "font/woff2"@
    } else if e == "ttf"@ {
        "font/ttf"@
    } else if e == "ico"@ {
        "image/x-icon"@
    } else {
        "application/octet-stream"@
    }
}

/// A relative asset path that is not loaded: hidden files and build
/// artifacts.
pub open spec fn skipped_asset(p: Seq<char>) -> bool {
    ||| seq_starts_with(p, seq!['.'])
    ||| seq_has_infix(p, "/target/"@)
    ||| seq_has_infix(p, "/node_modules/"@)
}

/// The content type served for a file extension (as `content_type_of`).
pub fn content_type_for_extension(ext: &str) -> (r: &'static str)
    ensures
        r@ == content_type_of(ext@),
{
    if str_eq(ext, "html") || str_eq(ext, "htm") {
        "text/html"
    } else if str_eq(ext, "css") {
        "text/css"
    } else if str_eq(ext, "js") || str_eq(ext, "mjs") {
        "application/javascript"
    } else if str_eq(ext, "json") {
        "application/json"
    } else if str_eq(ext, "png") {
        "image/png"
    } else if str_eq(ext, "jpg") || str_eq(ext, "jpeg") {
        "image/jpeg"
    } else if str_eq(ext, "gif") {
        "image/gif"
    } else if str_eq(ext, "svg") {
        "image/svg+xml"
    } else if str_eq(ext, "wasm") {
        "application/wasm"
    } else if str_eq(ext, "txt") {
        "text/plain"
    } else if str_eq(ext, "xml") {
        "application/xml"
    } else if str_eq(ext, "pdf") {
        "application/pdf"
    } else if str_eq(ext, "woff") {
        "font/woff"
    } else if str_eq(ext, "woff2") {
        "font/woff2"
    } else if str_eq(ext, "ttf") {
        "font/ttf"
    } else if str_eq(ext, "ico") {
        "image/x-icon"
    } else {
        "application/octet-stream"
    }
}

impl AppBundle {
    /// A bundle of `wasm_module` and the assets found, in the order found,
    /// under their relative paths (each found once); the metadata lists
    /// those paths in that order and counts the module and every asset in
    /// the total size.
    pub fn from_parts(
        wasm_module: Vec<u8>,
        found: Vec<(String, Vec<u8>)>,
        name: String,
        version: String,
        entry_point: String,
        created_at: u64,
    ) -> (r: Self)
        requires
            pair_keys(found@).no_duplicates(),
            wasm_module@.len() + values_size(found@) <= usize::MAX,
        ensures
            r.wasm_module@ == wasm_module@,
            asset_bytes(r.assets@) == assets_of(found@),
            texts(r.metadata.asset_paths@) == pair_keys(found@),
            r.metadata.name == name,
            r.metadata.version == version,
            r.metadata.entry_point == entry_point,
            r.metadata.created_at == created_at,
            r.metadata.total_size == wasm_module@.len() + values_size(found@),
    {
        let ghost fv = found@;
        let n: usize = found.len();
        assert(fv.len() == n);
        let mut found = found;
        let mut rest: Vec<(String, Vec<u8>)> = Vec::new();
        while found.len() > 0
            invariant
                fv == found@ + rest@.reverse(),
            decreases found@.len(),
        {
            let p = found.pop().unwrap();
            proof {
                assert(fv =~= found@ + rest@.push(p).reverse());
            }
            rest.push(p);
        }
        proof {
            assert(fv =~= rest@.reverse());
        }
        let mut assets: TextMap<Vec<u8>> = TextMap::new();
        let mut asset_paths: Vec<String> = Vec::new();
        let mut total_size: usize = wasm_module.len();
        let mut i: usize = 0;
        while rest.len() > 0
            invariant
                rest@.reverse() == fv.skip(i as int),
                i + rest@.len() == fv.len(),
                fv.len() <= usize::MAX,
                asset_bytes(assets@) == assets_of(fv.take(i as int)),
                texts(asset_paths@) == pair_keys(fv.take(i as int)),
                total_size == wasm_module@.len() + values_size(fv.take(i as int)),
                wasm_module@.len() + values_size(fv) <= usize::MAX,
            decreases rest@.len(),
        {
            let ghost before = rest@;
            let (path, content) = rest.pop().unwrap();
            proof {
                assert(before.reverse()[0] == before.last());
                assert(fv.skip(i as int)[0] == fv[i as int]);
                assert(fv[i as int] == (path, content));
                assert forall|j: int| 0 <= j < rest@.len() implies #[trigger] rest@.reverse()[j]
                    == fv.skip(i + 1)[j] by {
                    assert(rest@.reverse()[j] == before[before.len() - 2 - j]);
                    assert(before.reverse()[j + 1] == before[before.len() - 2 - j]);
                    assert(fv.skip(i as int)[j + 1] == fv.skip(i + 1)[j]);
                }
                assert(rest@.reverse() =~= fv.skip(i + 1));
                assert(fv.take(i + 1).drop_last() =~= fv.take(i as int));
                assert(fv.take(i + 1).last() == (path, content));
                lemma_values_size_prefix(fv, i + 1);
            }
            let p2 = copy_string(path.as_str());
            proof {
                assert(texts(asset_paths@.push(p2)) =~= texts(asset_paths@).push(p2@));
                assert(pair_keys(fv.take(i + 1)) =~= pair_keys(fv.take(i as int)).push(path@));
                assert(asset_bytes(assets@.insert(path@, content)) =~= asset_bytes(assets@).insert(
                    path@,
                    content@,
                ));
            }
            total_size = total_size + content.len();
            assets.insert(path, content);
            asset_paths.push(p2);
            i = i + 1;
        }
        proof {
            assert(fv.take(i as int) =~= fv);
        }
        AppBundle {
            wasm_module,
            assets,
            metadata: BundleMetadata { name, version, entry_point, asset_paths, total_size, created_at },
        }
    }

    /// Whether an asset found at `relative_path` is left out of a bundle:
    /// hidden files, and anything under `target/` or `node_modules/`
    /// directories.
    pub fn skips_asset(relative_path: &str) -> (r: bool)
        ensures
            r == skipped_asset(relative_path@),
    {
        let p = chars_of(relative_path);
        let t = chars_of("/target/");
        let n = chars_of("/node_modules/");
        let hidden = p.len() > 0 && p[0] == '.';
        proof {
            if p@.len() > 0 {
                assert(seq_starts_with(p@, seq!['.']) <==> p@[0] == '.') by {
                    if p@[0] == '.' {
                        assert(p@.take(1) =~= seq!['.']);
                    }
                    if seq_starts_with(p@, seq!['.']) {
                        assert(p@.take(1)[0] == '.');
                    }
                }
            }
        }
        hidden || has_infix(p.as_slice(), t.as_slice()) || has_infix(p.as_slice(), n.as_slice())
    }

    /// The asset stored under `path`.
    pub fn get_asset(&self, path: &str) -> (r: Option<&Vec<u8>>)
        ensures
            match r {
                Some(v) => self.assets@.contains_key(path@) && *v == self.assets@[path@],
                None => !self.assets@.contains_key(path@),
            },
    {
        self.assets.get(path)
    }

    /// The main module.
    pub fn wasm_module(&self) -> (r: &[u8])
        ensures
            r@ == self.wasm_module@,
    {
        self.wasm_module.as_slice()
    }

    /// The metadata.
    pub fn metadata(&self) -> (r: &BundleMetadata)
        ensures
            *r == self.metadata,
    {
        &self.metadata
    }

    /// The asset paths, in the order they were found.
    pub fn asset_paths(&self) -> (r: Vec<String>)
        ensures
            texts(r@) == texts(self.metadata.asset_paths@),
    {
        let src = &self.metadata.asset_paths;
        let mut out: Vec<String> = Vec::new();
        let mut i: usize = 0;
        while i < src.len()
            invariant
                0 <= i <= src@.len(),
                texts(out@) == texts(src@.take(i as int)),
            decreases src@.len() - i,
        {
            let s = copy_string(src[i].as_str());
            proof {
                assert(texts(out@.push(s)) =~= texts(out@).push(s@));
                assert(texts(src@.take(i + 1)) =~= texts(src@.take(i as int)).push(src@[i as int]@));
            }
            out.push(s);
            i = i + 1;
        }
        proof {
            assert(src@.take(src@.len() as int) =~= src@);
        }
        out
    }

    /// The content type served for `path`, by its extension; paths without
    /// one are served as `application/octet-stream`.
    pub fn content_type_for_path(path: &str) -> (r: &'static str)
        ensures
            r@ == content_type_of(
                match spec_path_extension(path@) {
                    Some(e) => e,
                    None => Seq::empty(),
                },
            ),
    {
        match path_extension(path) {
            Some(e) => content_type_for_extension(e.as_str()),
            None => {
                proof {
                    reveal_strlit("");
                    assert(""@ =~= Seq::<char>::empty());
                }
                content_type_for_extension("")
            },
        }
    }
}

proof fn lemma_values_size_prefix(s: Seq<(String, Vec<u8>)>, k: int)
    requires
        0 <= k <= s.len(),
    ensures
        values_size(s.take(k)) <= values_size(s),
    decreases s.len() - k,
{
    if k < s.len() {
        lemma_values_size_prefix(s, k + 1);
        assert(s.take(k + 1).drop_last() =~= s.take(k));
    } else {
        assert(s.take(k) =~= s);
    }
}

spec fn ext_tail(e: Seq<char>) -> (int, char, char) {
    (e.len() as int, e[e.len() - 1], e[e.len() - 2])
}

/// Each known extension is served with its standard MIME type (HTML, CSS,
/// JavaScript, JSON, the image, font, WebAssembly, text, XML and PDF
/// types); every other extension, the empty one included, is served as
/// `application/octet-stream`.
pub proof fn lemma_extension_mime_types(e: Seq<char>)
    ensures
        e == "html"@ ==> content_type_of(e) == "text/html"@,
        e == "htm"@ ==> content_type_of(e) == "text/html"@,
        e == "css"@ ==> content_type_of(e) == "text/css"@,
        e == "js"@ ==> content_type_of(e) == "application/javascript"@,
        e == "mjs"@ ==> content_type_of(e) == "application/javascript"@,
        e == "json"@ ==> content_type_of(e) == "application/json"@,
        e == "png"@ ==> content_type_of(e) == "image/png"@,
        e == "jpg"@ ==> content_type_of(e) == "image/jpeg"@,
        e == "jpeg"@ ==> content_type_of(e) == "image/jpeg"@,
        e == "gif"@ ==> content_type_of(e) == "image/gif"@,
        e == "svg"@ ==> content_type_of(e) == "image/svg+xml"@,
        e == "wasm"@ ==> content_type_of(e) == "application/wasm"@,
        e == "txt"@ ==> content_type_of(e) == "text/plain"@,
        e == "xml"@ ==> content_type_of(e) == "application/xml"@,
        e == "pdf"@ ==> content_type_of(e) == "application/pdf"@,
        e == "woff"@ ==> content_type_of(e) == "font/woff"@,
        e == "woff2"@ ==> content_type_of(e) == "font/woff2"@,
        e == "ttf"@ ==> content_type_of(e) == "font/ttf"@,
        e == "ico"@ ==> content_type_of(e) == "image/x-icon"@,
        !(e == "html"@ || e == "htm"@ || e == "css"@ || e == "js"@ || e == "mjs"@ || e == "json"@ || e == "png"@ || e == "jpg"@ || e == "jpeg"@ || e == "gif"@ || e == "svg"@ || e == "wasm"@ || e == "txt"@ || e == "xml"@ || e == "pdf"@ || e == "woff"@ || e == "woff2"@ || e == "ttf"@ || e == "ico"@) ==> content_type_of(e) == "application/octet-stream"@,
{
    reveal_strlit("html");
    assert(ext_tail("html"@) == (4int, 'l', 'm'));
    reveal_strlit("htm");
    assert(ext_tail("htm"@) == (3int, 'm', 't'));
    reveal_strlit("css");
    assert(ext_tail("css"@) == (3int, 's', 's'));
    reveal_strlit("js");
    assert(ext_tail("js"@) == (2int, 's', 'j'));
    reveal_strlit("mjs");
    assert(ext_tail("mjs"@) == (3int, 's', 'j'));
    reveal_strlit("json");
    assert(ext_tail("json"@) == (4int, 'n', 'o'));
    reveal_strlit("png");
    assert(ext_tail("png"@) == (3int, 'g', 'n'));
    reveal_strlit("jpg");
    assert(ext_tail("jpg"@) == (3int, 'g', 'p'));
    reveal_strlit("jpeg");
    assert(ext_tail("jpeg"@) == (4int, 'g', 'e'));
    reveal_strlit("gif");
    assert(ext_tail("gif"@) == (3int, 'f', 'i'));
    reveal_strlit("svg");
    assert(ext_tail("svg"@) == (3int, 'g', 'v'));
    reveal_strlit("wasm");
    assert(ext_tail("wasm"@) == (4int, 'm', 's'));
    reveal_strlit("txt");
    assert(ext_tail("txt"@) == (3int, 't', 'x'));
    reveal_strlit("xml");
    assert(ext_tail("xml"@) == (3int, 'l', 'm'));
    reveal_strlit("pdf");
    assert(ext_tail("pdf"@) == (3int, 'f', 'd'));
    reveal_strlit("woff");
    assert(ext_tail("woff"@) == (4int, 'f', 'f'));
    reveal_strlit("woff2");
    assert(ext_tail("woff2"@) == (5int, '2', 'f'));
    reveal_strlit("ttf");
    assert(ext_tail("ttf"@) == (3int, 'f', 't'));
    reveal_strlit("ico");
    assert(ext_tail("ico"@) == (3int, 'o', 'c'));
}

/// Hidden files (a path starting with `.`) and anything under a `target` or
/// `node_modules` directory are left out of a bundle; every other path is
/// kept.
pub proof fn lemma_skipped_assets(p: Seq<char>)
    ensures
        p.len() > 0 && p[0] == '.' ==> skipped_asset(p),
        seq_has_infix(p, "/target/"@) ==> skipped_asset(p),
        seq_has_infix(p, "/node_modules/"@) ==> skipped_asset(p),
        !(p.len() > 0 && p[0] == '.') && !seq_has_infix(p, "/target/"@) && !seq_has_infix(
            p,
            "/node_modules/"@,
        ) ==> !skipped_asset(p),
{
    if p.len() > 0 && p[0] == '.' {
        assert(p.subrange(0, 1) =~= seq!['.']);
    }
    if seq_starts_with(p, seq!['.']) {
        assert(p.subrange(0, 1)[0] == p[0]);
    }
}

} // verus!
