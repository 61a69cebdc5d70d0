//! PiperNet packages (.pn): a manifest with its modules and assets, each
//! encrypted, and the framing of a package file.

pub mod crypto;
pub mod manifest;
pub mod builder;
pub mod commands;

use vstd::prelude::*;
use crate::assoc::TextMap;
use crate::codec::{spec_zstd_compress, spec_zstd_decompress, zstd_compress, zstd_decompress};
use crate::text::{copy_string, push_all_bytes, bytes_from};
use self::crypto::{CryptoError, decrypt, decrypt_outcome, encrypt, bytes_outcome, aead_max};
use self::manifest::PackageManifest;

verus! {

/// The bytes that open a package file: "PN", then the format version 1.0.
pub open spec fn magic() -> Seq<u8> {
    seq![0x50u8, 0x4eu8, 0x01u8, 0x00u8]
}

/// The bytes that open a package file.
pub fn magic_bytes() -> (r: Vec<u8>)
    ensures
        r@ == magic(),
{
    let r = vec![0x50u8, 0x4eu8, 0x01u8, 0x00u8];
    assert(r@ =~= magic());
    r
}

/// Why a package file could not be made or read.
#[derive(Debug, Clone, Copy, PartialEq, Eq, Structural)]
pub enum PackageError {
    /// The file does not open with the magic bytes.
    BadMagic,
    /// Encryption or decryption failed.
    Crypto(CryptoError),
    /// Compression failed.
    Compression,
    /// The decrypted data is not valid zstd.
    Decompression,
}

impl PackageError {
    /// The text shown for the error.
    pub fn message(&self) -> (r: String)
        ensures
            r@ == package_message(*self),
    {
        match self {
            PackageError::BadMagic => crate::text::lit("Invalid .pn file: magic bytes mismatch"),
            PackageError::Crypto(e) => e.message(),
            PackageError::Compression => crate::text::lit("Failed to compress package"),
            PackageError::Decompression => crate::text::lit("Failed to decompress package"),
        }
    }
}

/// The text shown for a package error.
pub open spec fn package_message(e: PackageError) -> Seq<char> {
    match e {
        PackageError::BadMagic => "Invalid .pn file: magic bytes mismatch"@,
        PackageError::Crypto(c) => crypto::crypto_message(c),
        PackageError::Compression => "Failed to compress package"@,
        PackageError::Decompression => "Failed to decompress package"@,
    }
}

/// A framing result as a value.
pub open spec fn frame_outcome(r: Result<Vec<u8>, PackageError>) -> Result<Seq<u8>, PackageError> {
    match r {
        Ok(v) => Ok(v@),
        Err(e) => Err(e),
    }
}

/// What opening a package file `bytes` under `key` gives: the serialized
/// package, after the magic bytes are checked, the rest decrypted and
/// decompressed.
pub open spec fn open_outcome(bytes: Seq<u8>, key: Seq<u8>) -> Result<Seq<u8>, PackageError> {
    if bytes.len() < 4 || bytes.take(4) != magic() {
        Err(PackageError::BadMagic)
    } else {
        match decrypt_outcome(bytes.skip(4), key) {
            Err(e) => Err(PackageError::Crypto(e)),
            Ok(compressed) => match spec_zstd_decompress(compressed) {
                Some(data) => Ok(data),
                None => Err(PackageError::Decompression),
            },
        }
    }
}

/// Frames serialized package data as a package file: compressed with zstd
/// at level 3, encrypted under `key`, after the magic bytes. Opening the
/// file under the same key gives the data back.
pub fn seal_package(data: &[u8], key: &[u8]) -> (r: Result<Vec<u8>, PackageError>)
    ensures
        key@.len() != crypto::KEY_SIZE ==> r is Err,
        (r matches Err(PackageError::Compression)) <==> spec_zstd_compress(data@, 3) is None,
        spec_zstd_compress(data@, 3) is Some && key@.len() != crypto::KEY_SIZE ==> r == Err::<
            Vec<u8>,
            PackageError,
        >(PackageError::Crypto(CryptoError::InvalidKeySize(key@.len() as usize))),
        (spec_zstd_compress(data@, 3) matches Some(c) && key@.len() == crypto::KEY_SIZE && c.len()
            <= aead_max()) ==> r is Ok,
        r matches Err(e) ==> e == PackageError::Compression || e == PackageError::Crypto(
            CryptoError::InvalidKeySize(key@.len() as usize),
        ) || e == PackageError::Crypto(CryptoError::EncryptionFailed),
        r is Ok ==> open_outcome(r->Ok_0@, key@) == Ok::<Seq<u8>, PackageError>(data@),
{
    let compressed = match zstd_compress(data, 3) {
        Some(c) => c,
        None => {
            return Err(PackageError::Compression);
        },
    };
    let encrypted = match encrypt(compressed.as_slice(), key) {
        Ok(e) => e,
        Err(e) => {
            return Err(PackageError::Crypto(e));
        },
    };
    let mut output = magic_bytes();
    push_all_bytes(&mut output, encrypted.as_slice());
    proof {
        assert(output@.take(4) =~= magic());
        assert(output@.skip(4) =~= encrypted@);
    }
    Ok(output)
}

/// Opens a package file made by `seal_package` (see `open_outcome`).
pub fn open_package(bytes: &[u8], key: &[u8]) -> (r: Result<Vec<u8>, PackageError>)
    ensures
        frame_outcome(r) == open_outcome(bytes@, key@),
{
    if bytes.len() < 4 {
        return Err(PackageError::BadMagic);
    }
    if !(bytes[0] == 0x50 && bytes[1] == 0x4e && bytes[2] == 0x01 && bytes[3] == 0x00) {
        proof {
            if bytes@.take(4) == magic() {
                assert(bytes@.take(4)[0] == 0x50u8);
                assert(bytes@.take(4)[1] == 0x4eu8);
                assert(bytes@.take(4)[2] == 0x01u8);
                assert(bytes@.take(4)[3] == 0x00u8);
            }
        }
        return Err(PackageError::BadMagic);
    }
    proof {
        assert(bytes@.take(4) =~= magic());
    }
    let rest = bytes_from(bytes, 4);
    let compressed = match decrypt(rest.as_slice(), key) {
        Ok(c) => c,
        Err(e) => {
            return Err(PackageError::Crypto(e));
        },
    };
    match zstd_decompress(compressed.as_slice()) {
        Some(d) => Ok(d),
        None => Err(PackageError::Decompression),
    }
}

/// A package: its manifest, with the main module, the assets and the
/// dependencies each encrypted.
#[derive(Debug)]
pub struct PiperNetPackage {
    /// Package manifest
    pub manifest: PackageManifest,
    /// Main module bytes (encrypted)
    pub module: Vec<u8>,
    /// Asset files (path to encrypted bytes)
    pub assets: TextMap<Vec<u8>>,
    /// Dependency modules (name to encrypted bytes)
    pub dependencies: TextMap<Vec<u8>>,
    /// Package signature
    pub signature: Vec<u8>,
}

/// The keys of a map, as texts in a list.
pub open spec fn lists_keys<V>(v: Seq<String>, m: Map<Seq<char>, V>) -> bool {
    &&& v.len() == m.dom().len()
    &&& forall|k: Seq<char>| m.contains_key(k) <==> exists|i: int| 0 <= i < v.len() && (#[trigger] v[i])@ == k
}

/// What looking up an encrypted entry and decrypting it gives.
pub open spec fn entry_outcome(m: Map<Seq<char>, Vec<u8>>, k: Seq<char>, key: Seq<u8>) -> Result<
    Option<Seq<u8>>,
    CryptoError,
> {
    if m.contains_key(k) {
        match decrypt_outcome(m[k]@, key) {
            Ok(p) => Ok(Some(p)),
            Err(e) => Err(e),
        }
    } else {
        Ok(None)
    }
}

/// An optional byte result as a value.
pub open spec fn entry_view(r: Result<Option<Vec<u8>>, CryptoError>) -> Result<Option<Seq<u8>>, CryptoError> {
    match r {
        Ok(Some(v)) => Ok(Some(v@)),
        Ok(None) => Ok(None),
        Err(e) => Err(e),
    }
}

fn decrypt_entry(m: &TextMap<Vec<u8>>, k: &str, key: &[u8]) -> (r: Result<Option<Vec<u8>>, CryptoError>)
    ensures
        entry_view(r) == entry_outcome(m@, k@, key@),
{
    match m.get(k) {
        Some(encrypted) => match decrypt(encrypted.as_slice(), key) {
            Ok(p) => Ok(Some(p)),
            Err(e) => Err(e),
        },
        None => Ok(None),
    }
}

fn key_list(m: &TextMap<Vec<u8>>) -> (r: Vec<String>)
    ensures
        lists_keys(r@, m@),
{
    let pairs = m.pairs();
    let mut out: Vec<String> = Vec::new();
    let mut i: usize = 0;
    while i < pairs.len()
        invariant
            0 <= i <= pairs@.len(),
            out@.len() == i,
            forall|j: int| 0 <= j < i ==> (#[trigger] out@[j])@ == pairs@[j].0@,
        decreases pairs@.len() - i,
    {
        out.push(copy_string(pairs[i].0.as_str()));
        i = i + 1;
    }
    proof {
        crate::assoc::lemma_assoc_len(pairs@);
        assert forall|k: Seq<char>| m@.contains_key(k) <==> exists|i: int| 0 <= i < out@.len() && (#[trigger] out@[i])@ == k by {
            let ks = crate::assoc::keys_of(pairs@);
            if m@.contains_key(k) {
                let j = choose|j: int| 0 <= j < ks.len() && ks[j] == k;
                assert(out@[j]@ == k);
            }
            if exists|i: int| 0 <= i < out@.len() && (#[trigger] out@[i])@ == k {
                let j = choose|j: int| 0 <= j < out@.len() && (#[trigger] out@[j])@ == k;
                assert(ks[j] == k);
            }
        }
    }
    out
}

impl PiperNetPackage {
    /// A package of the given parts, not yet signed.
    pub fn new(
        manifest: PackageManifest,
        module: Vec<u8>,
        assets: TextMap<Vec<u8>>,
        dependencies: TextMap<Vec<u8>>,
    ) -> (r: Self)
        ensures
            r.manifest == manifest,
            r.module == module,
            r.assets == assets,
            r.dependencies == dependencies,
            r.signature@.len() == 0,
    {
        PiperNetPackage { manifest, module, assets, dependencies, signature: Vec::new() }
    }

    /// The main module, decrypted under `key`.
    pub fn get_module(&self, key: &[u8]) -> (r: Result<Vec<u8>, CryptoError>)
        ensures
            bytes_outcome(r) == decrypt_outcome(self.module@, key@),
    {
        decrypt(self.module.as_slice(), key)
    }

    /// The asset at `path`, decrypted under `key`; `None` if there is none.
    pub fn get_asset(&self, path: &str, key: &[u8]) -> (r: Result<Option<Vec<u8>>, CryptoError>)
        ensures
            entry_view(r) == entry_outcome(self.assets@, path@, key@),
    {
        decrypt_entry(&self.assets, path, key)
    }

    /// The dependency `name`, decrypted under `key`; `None` if there is none.
    pub fn get_dependency(&self, name: &str, key: &[u8]) -> (r: Result<Option<Vec<u8>>, CryptoError>)
        ensures
            entry_view(r) == entry_outcome(self.dependencies@, name@, key@),
    {
        decrypt_entry(&self.dependencies, name, key)
    }

    /// The paths of the assets, each once.
    pub fn asset_paths(&self) -> (r: Vec<String>)
        ensures
            lists_keys(r@, self.assets@),
    {
        key_list(&self.assets)
    }

    /// The names of the dependencies, each once.
    pub fn dependency_names(&self) -> (r: Vec<String>)
        ensures
            lists_keys(r@, self.dependencies@),
    {
        key_list(&self.dependencies)
    }
}

} // verus!
