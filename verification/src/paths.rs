//! Path handling over plain strings.

use vstd::prelude::*;
use crate::text::{chars_of, string_from_chars, push_all};

verus! {

/// `rel` appended to `base` as `Path::join` does on Unix: an absolute `rel`
/// replaces `base`; otherwise a `/` separates them unless `base` is empty or
/// already ends with one.
pub open spec fn path_join(base: Seq<char>, rel: Seq<char>) -> Seq<char> {
    if rel.len() > 0 && rel[0] == '/' {
        rel
    } else if base.len() == 0 {
        rel
    } else if base.last() == '/' {
        base + rel
    } else {
        base + seq!['/'] + rel
    }
}

/// Joins `rel` onto `base` (`Path::join`).
pub fn join_path(base: &str, rel: &str) -> (r: String)
    ensures
        r@ == path_join(base@, rel@),
{
    let b = chars_of(base);
    let l = chars_of(rel);
    if l.len() > 0 && l[0] == '/' {
        return string_from_chars(l.as_slice());
    }
    if b.len() == 0 {
        return string_from_chars(l.as_slice());
    }
    let mut out = b;
    if out[out.len() - 1] != '/' {
        out.push('/');
    }
    push_all(&mut out, l.as_slice());
    string_from_chars(out.as_slice())
}

/// What `Path::extension` gives for a path: the part of the file name after
/// its last `.`, if there is one.
pub uninterp spec fn spec_path_extension(path: Seq<char>) -> Option<Seq<char>>;

/// The extension of `path` (`std::path::Path::extension`); a non-UTF-8
/// extension cannot arise from a `&str`. The contract names the result:
/// how `Path` splits components is not restated here.
#[verifier::external_body]
pub(crate) fn path_extension(path: &str) -> (r: Option<String>)
    ensures
        r is Some <==> spec_path_extension(path@) is Some,
        r matches Some(e) ==> e@ == spec_path_extension(path@)->0,
{
    std::path::Path::new(path).extension().and_then(|e| e.to_str()).map(|e| e.to_string())
}

/// What `Path::file_stem` gives for a path: its file name without the extension.
pub uninterp spec fn spec_path_file_stem(path: Seq<char>) -> Option<Seq<char>>;

/// The file stem of `path` (`std::path::Path::file_stem`).
#[verifier::external_body]
pub(crate) fn path_file_stem(path: &str) -> (r: Option<String>)
    ensures
        r is Some <==> spec_path_file_stem(path@) is Some,
        r matches Some(e) ==> e@ == spec_path_file_stem(path@)->0,
{
    std::path::Path::new(path).file_stem().and_then(|e| e.to_str()).map(|e| e.to_string())
}

/// What `Path::parent` gives for a path: the path without its last
/// component, if it has one.
pub uninterp spec fn spec_path_parent(path: Seq<char>) -> Option<Seq<char>>;

/// The parent of `path` (`std::path::Path::parent`).
#[verifier::external_body]
pub(crate) fn path_parent(path: &str) -> (r: Option<String>)
    ensures
        r is Some <==> spec_path_parent(path@) is Some,
        r matches Some(p) ==> p@ == spec_path_parent(path@)->0,
{
    std::path::Path::new(path).parent().and_then(|p| p.to_str()).map(|p| p.to_string())
}

} // verus!
