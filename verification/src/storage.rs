//! Persistent key-value storage for modules: the values in memory, and
//! the files they are kept in, one per key, named by the key in hex.

use vstd::prelude::*;
use vstd::string::StringExecFns;
use crate::assoc::TextMap;
use crate::package::commands::{hex_decoded, hex_decode, hex_val};
use crate::paths::{
    path_join, join_path, path_extension, path_file_stem, spec_path_extension,
    spec_path_file_stem,
};
use crate::text::{lit, copy_bytes, str_eq, utf8_string, utf8};

verus! {

/// The lowercase hex digit of `d` (0 to 15).
pub open spec fn hex_digit(d: u8) -> char {
    if d < 10 {
        (d + 48) as char
    } else {
        (d + 87) as char
    }
}

/// Bytes in lowercase hex, two digits per byte, high digit first.
pub open spec fn hex_encoded(b: Seq<u8>) -> Seq<char>
    decreases b.len(),
{
    if b.len() == 0 {
        Seq::empty()
    } else {
        seq![hex_digit(b[0] / 16), hex_digit(b[0] % 16)] + hex_encoded(b.drop_first())
    }
}

/// Encodes bytes as lowercase hex text (`hex::encode`).
#[verifier::external_body]
fn hex_encode(data: &[u8]) -> (r: String)
    ensures
        r@ == hex_encoded(data@),
{
    hex::encode(data)
}

proof fn lemma_hex_encoded_ascii(b: Seq<u8>)
    ensures
        hex_encoded(b).len() == 2 * b.len(),
        vstd::utf8::is_ascii_chars(hex_encoded(b)),
        forall|i: int| 0 <= i < b.len() ==> (#[trigger] hex_encoded(b)[2 * i]) == hex_digit(b[i] / 16)
            && hex_encoded(b)[2 * i + 1] == hex_digit(b[i] % 16),
    decreases b.len(),
{
    if b.len() > 0 {
        lemma_hex_encoded_ascii(b.drop_first());
        let h = hex_encoded(b);
        let t = hex_encoded(b.drop_first());
        assert(h == seq![hex_digit(b[0] / 16), hex_digit(b[0] % 16)] + t);
        assert forall|i: int| 0 <= i < b.len() implies (#[trigger] h[2 * i]) == hex_digit(b[i] / 16)
            && h[2 * i + 1] == hex_digit(b[i] % 16) by {
            if i > 0 {
                assert(b.drop_first()[i - 1] == b[i]);
                assert(t[2 * (i - 1)] == h[2 * i]);
                assert(t[2 * (i - 1) + 1] == h[2 * i + 1]);
            }
        }
        assert forall|i: int| 0 <= i < h.len() implies '\0' <= #[trigger] h[i] <= '\u{7f}' by {
            if i >= 2 {
                assert(h[i] == t[i - 2]);
            }
        }
    }
}

proof fn lemma_hex_decodes(b: Seq<u8>, h: Seq<u8>)
    requires
        h.len() == 2 * b.len(),
        forall|i: int| 0 <= i < b.len() ==> (#[trigger] h[2 * i]) == hex_digit(b[i] / 16) as u8
            && h[2 * i + 1] == hex_digit(b[i] % 16) as u8,
    ensures
        hex_decoded(h) == Some(b),
    decreases b.len(),
{
    if b.len() > 0 {
        let rest = b.drop_first();
        let hr = h.skip(2);
        assert forall|i: int| 0 <= i < rest.len() implies (#[trigger] hr[2 * i]) == hex_digit(rest[i] / 16) as u8
            && hr[2 * i + 1] == hex_digit(rest[i] % 16) as u8 by {
            assert(h[2 * (i + 1)] == hr[2 * i]);
            assert(h[2 * (i + 1) + 1] == hr[2 * i + 1]);
            assert(rest[i] == b[i + 1]);
        }
        lemma_hex_decodes(rest, hr);
        let x = b[0];
        assert(h[0] == hex_digit(x / 16) as u8 && h[1] == hex_digit(x % 16) as u8) by {
            assert(h[2 * 0int] == h[0]);
        }
        assert(hex_val(h[0]) == Some((x / 16) as u8));
        assert(hex_val(h[1]) == Some((x % 16) as u8));
        assert((((x / 16) as u8) * 16 + ((x % 16) as u8)) as u8 == x);
        assert(seq![x] + rest =~= b);
    }
}

/// The stem of the file a key is kept in: the key's UTF-8 bytes in hex.
pub open spec fn key_file_stem(key: Seq<char>) -> Seq<char> {
    hex_encoded(utf8(key))
}

/// The key a file stem stands for: its text as hex, decoded, when that is
/// UTF-8.
pub open spec fn stem_key(stem: Seq<char>) -> Option<Seq<char>> {
    match hex_decoded(utf8(stem)) {
        Some(b) => if vstd::utf8::valid_utf8(b) {
            Some(vstd::utf8::decode_utf8(b))
        } else {
            None
        },
        None => None,
    }
}

/// A key's file stem stands for the key again: every key can be stored and
/// read back from its file's name.
pub proof fn lemma_stem_roundtrip(key: Seq<char>)
    ensures
        stem_key(key_file_stem(key)) == Some(key),
{
    let b = utf8(key);
    let h = hex_encoded(b);
    lemma_hex_encoded_ascii(b);
    vstd::utf8::is_ascii_chars_encode_utf8(h);
    let hb = utf8(h);
    assert forall|i: int| 0 <= i < b.len() implies (#[trigger] hb[2 * i]) == hex_digit(b[i] / 16) as u8
        && hb[2 * i + 1] == hex_digit(b[i] % 16) as u8 by {
        assert(h[2 * i] == hex_digit(b[i] / 16));
        assert(h[2 * i + 1] == hex_digit(b[i] % 16));
    }
    lemma_hex_decodes(b, hb);
    vstd::utf8::encode_utf8_valid_utf8(key);
    vstd::utf8::encode_utf8_decode_utf8(key);
}

/// The stem of the file a key is kept in.
pub fn storage_file_stem(key: &str) -> (r: String)
    ensures
        r@ == key_file_stem(key@),
{
    hex_encode(key.as_bytes())
}

/// The key a file stem stands for (see `stem_key`).
pub fn key_from_stem(stem: &str) -> (r: Option<String>)
    ensures
        match r {
            Some(k) => stem_key(stem@) == Some(k@),
            None => stem_key(stem@) is None,
        },
{
    match hex_decode(stem) {
        Some(b) => match utf8_string(b.as_slice()) {
            Ok(k) => Some(k),
            Err(_) => None,
        },
        None => None,
    }
}

/// The key a stored file holds: for a `.dat` file, the key its stem
/// stands for.
pub open spec fn file_key(path: Seq<char>) -> Option<Seq<char>> {
    if spec_path_extension(path) == Some("dat"@) {
        match spec_path_file_stem(path) {
            Some(stem) => stem_key(stem),
            None => None,
        }
    } else {
        None
    }
}

/// The values the files hold, by key, a later file winning.
pub open spec fn stored_values(files: Seq<(String, Vec<u8>)>) -> Map<Seq<char>, Seq<u8>>
    decreases files.len(),
{
    if files.len() == 0 {
        Map::empty()
    } else {
        let m = stored_values(files.drop_last());
        match file_key(files.last().0@) {
            Some(k) => m.insert(k, files.last().1@),
            None => m,
        }
    }
}

/// The values of a map of byte vectors.
pub open spec fn byte_values(m: Map<Seq<char>, Vec<u8>>) -> Map<Seq<char>, Seq<u8>> {
    m.map_values(|v: Vec<u8>| v@)
}

/// Persistent key-value storage: the values by key, and the directory that
/// keeps a file `<hex of key>.dat` for each.
pub struct PersistentStorage {
    cache: TextMap<Vec<u8>>,
    storage_path: String,
}

impl PersistentStorage {
    /// The values stored, by key.
    pub closed spec fn spec_values(&self) -> Map<Seq<char>, Seq<u8>> {
        byte_values(self.cache@)
    }

    /// The directory the values are kept in.
    pub closed spec fn spec_path(&self) -> Seq<char> {
        self.storage_path@
    }

    /// The storage of the directory `storage_path` holding `files` (path
    /// and contents): each `.dat` file whose stem stands for a key holds
    /// that key's value; other files are left aside.
    pub fn from_files(storage_path: String, files: Vec<(String, Vec<u8>)>) -> (r: Self)
        ensures
            r.spec_path() == storage_path@,
            r.spec_values() == stored_values(files@),
    {
        let mut cache: TextMap<Vec<u8>> = TextMap::new();
        let ghost fv = files@;
        let mut i: usize = 0;
        assert(byte_values(cache@) =~= stored_values(fv.take(0)));
        while i < files.len()
            invariant
                0 <= i <= fv.len(),
                files@ == fv,
                byte_values(cache@) == stored_values(fv.take(i as int)),
            decreases fv.len() - i,
        {
            let (path, data) = &files[i];
            proof {
                assert(fv.take(i + 1).drop_last() =~= fv.take(i as int));
                assert(fv.take(i + 1).last() == fv[i as int]);
            }
            let ext = path_extension(path.as_str());
            let is_dat = match &ext {
                Some(e) => str_eq(e.as_str(), "dat"),
                None => false,
            };
            proof {
                reveal_strlit("dat");
            }
            if is_dat {
                match path_file_stem(path.as_str()) {
                    Some(stem) => match key_from_stem(stem.as_str()) {
                        Some(key) => {
                            let ghost before = cache@;
                            let v = copy_bytes(data.as_slice());
                            cache.insert(key, v);
                            proof {
                                assert(byte_values(cache@) =~= byte_values(before).insert(key@, data@));
                            }
                        },
                        None => {},
                    },
                    None => {},
                }
            }
            i = i + 1;
        }
        proof {
            assert(fv.take(fv.len() as int) =~= fv);
        }
        PersistentStorage { cache, storage_path }
    }

    /// The file that keeps `key`'s value: `<hex of key>.dat` in the storage
    /// directory.
    pub fn file_path(&self, key: &str) -> (r: String)
        ensures
            r@ == path_join(self.spec_path(), key_file_stem(key@) + ".dat"@),
    {
        let mut name = storage_file_stem(key);
        name.append(".dat");
        join_path(self.storage_path.as_str(), name.as_str())
    }

    /// The value stored under `key`.
    pub fn get(&self, key: &str) -> (r: Option<Vec<u8>>)
        ensures
            match r {
                Some(v) => self.spec_values().contains_key(key@) && v@ == self.spec_values()[key@],
                None => !self.spec_values().contains_key(key@),
            },
    {
        match self.cache.get(key) {
            Some(v) => Some(copy_bytes(v.as_slice())),
            None => None,
        }
    }

    /// Stores `value` under `key`, giving the file to write it to.
    pub fn set(&mut self, key: &str, value: Vec<u8>) -> (r: String)
        ensures
            final(self).spec_values() == old(self).spec_values().insert(key@, value@),
            final(self).spec_path() == old(self).spec_path(),
            r@ == path_join(old(self).spec_path(), key_file_stem(key@) + ".dat"@),
    {
        let ghost before = self.cache@;
        let ghost v = value@;
        self.cache.insert(lit(key), value);
        proof {
            assert(byte_values(self.cache@) =~= byte_values(before).insert(key@, v));
        }
        self.file_path(key)
    }

    /// Removes the value under `key`, giving the file to delete.
    pub fn delete(&mut self, key: &str) -> (r: String)
        ensures
            final(self).spec_values() == old(self).spec_values().remove(key@),
            final(self).spec_path() == old(self).spec_path(),
            r@ == path_join(old(self).spec_path(), key_file_stem(key@) + ".dat"@),
    {
        let ghost before = self.cache@;
        self.cache.remove(key);
        proof {
            assert(byte_values(self.cache@) =~= byte_values(before).remove(key@));
        }
        self.file_path(key)
    }

    /// The number of keys stored.
    pub fn len(&self) -> (r: usize)
        ensures
            r == self.spec_values().len(),
    {
        proof {
            assert(self.spec_values().dom() =~= self.cache@.dom());
        }
        self.cache.len()
    }

    /// Whether nothing is stored.
    pub fn is_empty(&self) -> (r: bool)
        ensures
            r == (self.spec_values().len() == 0),
    {
        self.len() == 0
    }
}

/// What is stored is what is read back: after `set(k, v)` a `get(k)` gives
/// `v` and other keys keep their values; after `delete(k)` a `get(k)` gives
/// nothing.
pub proof fn lemma_storage_read_your_write(values: Map<Seq<char>, Seq<u8>>, k: Seq<char>, v: Seq<u8>, other: Seq<char>)
    requires
        other != k,
    ensures
        values.insert(k, v).contains_key(k) && values.insert(k, v)[k] == v,
        values.insert(k, v).contains_key(other) == values.contains_key(other),
        values.contains_key(other) ==> values.insert(k, v)[other] == values[other],
        !values.remove(k).contains_key(k),
{
}

} // verus!
