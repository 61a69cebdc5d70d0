//! Module identity: content identifiers computed from module bytes, and
//! what is known of a module.

pub mod version;
pub mod cache;

use vstd::prelude::*;
use crate::text::{utf8};
use crate::gateway::routing::{is_cid_char, looks_like_cid};

verus! {

/// What BLAKE3 gives for `data`.
pub uninterp spec fn spec_blake3(data: Seq<u8>) -> Seq<u8>;

/// What multibase encoding in lowercase base32 gives for `bytes`: the code
/// `b`, then the RFC 4648 lowercase alphabet without padding.
pub uninterp spec fn spec_multibase_base32(bytes: Seq<u8>) -> Seq<char>;

/// The BLAKE3 digest of `data` (`blake3::hash`), 32 bytes.
#[verifier::external_body]
pub(crate) fn blake3_hash(data: &[u8]) -> (r: [u8; 32])
    ensures
        r@ == spec_blake3(data@),
{
    *blake3::hash(data).as_bytes()
}

/// Encodes bytes as multibase base32 lowercase (`multibase::encode` with
/// `Base::Base32Lower`): the code `b`, then one character of `a`-`z`,
/// `2`-`7` for every 5 bits, the last group padded with zero bits.
#[verifier::external_body]
fn multibase_base32(bytes: &[u8]) -> (r: String)
    ensures
        r@ == spec_multibase_base32(bytes@),
        r@.len() == 1 + (bytes@.len() * 8 + 4) / 5,
        r@[0] == 'b',
        forall|i: int| 1 <= i < r@.len() ==> is_cid_char(#[trigger] r@[i]),
{
    multibase::encode(multibase::Base::Base32Lower, bytes)
}

/// The content identifier of a module.
#[derive(Debug, Clone, PartialEq, Eq, Hash)]
pub struct ModuleCid(pub String);

/// The texts of a list of CIDs.
pub open spec fn cid_texts(v: Seq<ModuleCid>) -> Seq<Seq<char>> {
    v.map_values(|c: ModuleCid| c.0@)
}

impl ModuleCid {
    /// A CID of the given text.
    pub fn new(cid: String) -> (r: Self)
        ensures
            r.0 == cid,
    {
        ModuleCid(cid)
    }

    /// The CID of module bytes: their BLAKE3 digest in multibase base32. It
    /// has the shape the gateway accepts as a CID.
    pub fn from_bytes(data: &[u8]) -> (r: Self)
        ensures
            r.0@ == spec_multibase_base32(spec_blake3(data@)),
            looks_like_cid(r.0@, vstd::utf8::encode_utf8(r.0@).len() as int),
    {
        let hash = blake3_hash(data);
        let text = multibase_base32(&hash);
        proof {
            assert(text@.len() == 53);
            assert(vstd::utf8::is_ascii_chars(text@)) by {
                assert forall|i: int| 0 <= i < text@.len() implies '\0' <= #[trigger] text@[i] <= '\u{7f}' by {
                    if i > 0 {
                        assert(is_cid_char(text@[i]));
                    }
                }
            }
            vstd::utf8::is_ascii_chars_encode_utf8(text@);
            assert forall|i: int| 0 <= i < text@.len() implies is_cid_char(#[trigger] text@[i]) by {
                if i == 0 {
                    assert(text@[0] == 'b');
                }
            }
        }
        ModuleCid(text)
    }

    /// The CID as text.
    pub fn as_str(&self) -> (r: &str)
        ensures
            r@ == self.0@,
    {
        self.0.as_str()
    }
}

/// What is known of a module.
#[derive(Debug, Clone)]
pub struct ModuleInfo {
    /// Content identifier
    pub cid: ModuleCid,
    /// Module name
    pub name: Option<String>,
    /// Module version
    pub version: Option<String>,
    /// Module size in bytes
    pub size: usize,
    /// CIDs of the modules it depends on
    pub dependencies: Vec<ModuleCid>,
    /// Module author
    pub author: Option<String>,
    /// Module description
    pub description: Option<String>,
}

} // verus!
