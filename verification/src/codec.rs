//! Text encodings of binary data and of JSON strings.

use vstd::prelude::*;
use base64::Engine;

verus! {

/// The declared error type of base64 decoding.
#[verifier::external_type_specification]
#[verifier::external_body]
pub struct ExDecodeError(base64::DecodeError);

/// What the standard base64 alphabet, with padding, gives for `bytes`.
pub uninterp spec fn spec_base64_encode(bytes: Seq<u8>) -> Seq<char>;

/// What decoding `text` with the standard base64 alphabet gives, if it is
/// well-formed.
pub uninterp spec fn spec_base64_decode(text: Seq<char>) -> Option<Seq<u8>>;

/// Encodes bytes in standard base64 with padding
/// (`base64::engine::general_purpose::STANDARD.encode`). The encoding
/// decodes back to the same bytes.
#[verifier::external_body]
pub(crate) fn base64_encode(bytes: &[u8]) -> (r: String)
    ensures
        r@ == spec_base64_encode(bytes@),
        spec_base64_decode(r@) == Some(bytes@),
{
    base64::engine::general_purpose::STANDARD.encode(bytes)
}

/// Decodes standard base64 with padding
/// (`base64::engine::general_purpose::STANDARD.decode`).
#[verifier::external_body]
pub(crate) fn base64_decode(text: &str) -> (r: Result<Vec<u8>, base64::DecodeError>)
    ensures
        r is Ok <==> spec_base64_decode(text@) is Some,
        r is Ok ==> spec_base64_decode(text@) == Some(r->Ok_0@),
{
    base64::engine::general_purpose::STANDARD.decode(text)
}

/// What `serde_json` writes for a JSON string value holding `s`: the text in
/// double quotes, with `"`, `\` and control characters escaped.
pub uninterp spec fn spec_json_quote(s: Seq<char>) -> Seq<char>;

/// `c` is written unchanged inside a JSON string.
pub open spec fn json_plain(c: char) -> bool {
    c != '"' && c != '\\' && (c as u32) >= 0x20
}

/// A text as a JSON string value (the display of `serde_json::Value::String`).
/// Characters other than `"`, `\` and control characters are written as
/// they are.
#[verifier::external_body]
pub(crate) fn json_quote(s: &str) -> (r: String)
    ensures
        r@ == spec_json_quote(s@),
        (forall|i: int| 0 <= i < s@.len() ==> json_plain(#[trigger] s@[i])) ==> r@ == seq!['"']
            + s@ + seq!['"'],
{
    serde_json::Value::String(s.to_string()).to_string()
}


/// What zstd compression at `level` gives for `data`.
pub uninterp spec fn spec_zstd_compress(data: Seq<u8>, level: i32) -> Option<Seq<u8>>;

/// What zstd decompression gives for `data`, if it is a valid frame.
pub uninterp spec fn spec_zstd_decompress(data: Seq<u8>) -> Option<Seq<u8>>;

/// Compresses with zstd (`zstd::encode_all`); `None` stands for the I/O
/// error it may report. What comes out decompresses to `data`.
#[verifier::external_body]
pub(crate) fn zstd_compress(data: &[u8], level: i32) -> (r: Option<Vec<u8>>)
    ensures
        r is Some <==> spec_zstd_compress(data@, level) is Some,
        r matches Some(c) ==> spec_zstd_compress(data@, level) == Some(c@) && spec_zstd_decompress(
            c@,
        ) == Some(data@),
{
    zstd::encode_all(data, level).ok()
}

/// Decompresses zstd data (`zstd::decode_all`); `None` for data that is not
/// a valid frame.
#[verifier::external_body]
pub(crate) fn zstd_decompress(data: &[u8]) -> (r: Option<Vec<u8>>)
    ensures
        r is Some <==> spec_zstd_decompress(data@) is Some,
        r matches Some(d) ==> spec_zstd_decompress(data@) == Some(d@),
{
    zstd::decode_all(data).ok()
}

} // verus!
