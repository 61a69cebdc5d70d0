//! Percent-decoding of URL text.

use vstd::prelude::*;

verus! {

/// What `urlencoding::decode` gives for a text: the decoded text, or the
/// message of the UTF-8 error met on the decoded bytes.
pub uninterp spec fn spec_url_decode(s: Seq<char>) -> Result<Seq<char>, Seq<char>>;

/// Decodes `%XX` escapes (`urlencoding::decode`). A text without `%` comes
/// back unchanged; otherwise the result is named, not stated. On an
/// error, the error's display text is returned.
#[verifier::external_body]
pub(crate) fn url_decode(s: &str) -> (r: Result<String, String>)
    ensures
        r is Ok ==> spec_url_decode(s@) == Ok::<Seq<char>, Seq<char>>(r->Ok_0@),
        r is Err ==> spec_url_decode(s@) == Err::<Seq<char>, Seq<char>>(r->Err_0@),
        !s@.contains('%') ==> r is Ok && r->Ok_0@ == s@,
{
    match urlencoding::decode(s) {
        Ok(d) => Ok(d.into_owned()),
        Err(e) => Err(e.to_string()),
    }
}

} // verus!
