//! The decisions behind the `package` commands: the manifest `init`
//! writes, the file `build` names, the key a command uses, the check of a
//! package file, and the files `extract` writes.

use vstd::prelude::*;
use vstd::string::StringExecFns;
use crate::text::{
    lit, replace_all, replaced, to_lowercase, spec_to_lowercase, copy_bytes, utf8, opt_str_text,
};
use super::manifest::{PackageManifest, example_manifest_text};
use super::crypto::{CryptoError, KEY_SIZE, decrypt, decrypt_outcome, get_network_key, spec_sha256};
use super::{PiperNetPackage, magic};

verus! {

/// The manifest `package init` writes: the example manifest with its
/// `[metadata]` name line (`name = "hello-api"`) set to the given name, if
/// any, and the line `type = "backend"` set to the lower-cased package type.
pub open spec fn init_text(name: Option<Seq<char>>, package_type: Seq<char>) -> Seq<char> {
    let t = example_manifest_text();
    let named = match name {
        Some(n) => replaced(t, "name = \"hello-api\""@, "name = \""@ + n + "\""@),
        None => t,
    };
    replaced(named, "type = \"backend\""@, "type = \""@ + spec_to_lowercase(package_type) + "\""@)
}

/// The manifest text `package init` writes (see `init_text`).
pub fn init_manifest_text(name: Option<&str>, package_type: &str) -> (r: String)
    ensures
        r@ == init_text(opt_str_text(name), package_type@),
{
    proof {
        reveal_strlit("name = \"hello-api\"");
        reveal_strlit("type = \"backend\"");
    }
    let mut text = PackageManifest::example();
    match name {
        Some(n) => {
            let mut line = lit("name = \"");
            line.append(n);
            line.append("\"");
            text = replace_all(text.as_str(), "name = \"hello-api\"", line.as_str());
        },
        None => {},
    }
    let mut type_line = lit("type = \"");
    let lower = to_lowercase(package_type);
    type_line.append(lower.as_str());
    type_line.append("\"");
    replace_all(text.as_str(), "type = \"backend\"", type_line.as_str())
}

/// The file `package build` writes when no output is given:
/// `<name>-<version>.pn`.
pub fn package_file_name(manifest: &PackageManifest) -> (r: String)
    ensures
        r@ == manifest.metadata.name@ + "-"@ + manifest.metadata.version@ + ".pn"@,
{
    let mut f = lit(manifest.metadata.name.as_str());
    f.append("-");
    f.append(manifest.metadata.version.as_str());
    f.append(".pn");
    f
}

/// The value of a hex digit (either case).
pub open spec fn hex_val(c: u8) -> Option<u8> {
    if 0x41u8 <= c && c <= 0x46u8 {
        Some((c - 0x41u8 + 10) as u8)
    } else if 0x61u8 <= c && c <= 0x66u8 {
        Some((c - 0x61u8 + 10) as u8)
    } else if 0x30u8 <= c && c <= 0x39u8 {
        Some((c - 0x30u8) as u8)
    } else {
        None
    }
}

/// The bytes hex text stands for: two digits per byte, high digit first;
/// `None` for an odd length or a character that is no hex digit.
pub open spec fn hex_decoded(h: Seq<u8>) -> Option<Seq<u8>>
    decreases h.len(),
{
    if h.len() == 0 {
        Some(Seq::empty())
    } else if h.len() == 1 {
        None
    } else {
        match (hex_val(h[0]), hex_val(h[1]), hex_decoded(h.skip(2))) {
            (Some(a), Some(b), Some(rest)) => Some(seq![(a * 16 + b) as u8] + rest),
            _ => None,
        }
    }
}

/// Decodes hex text (`hex::decode`): `None` where the text has an odd
/// length or a character that is no hex digit.
#[verifier::external_body]
pub(crate) fn hex_decode(text: &str) -> (r: Option<Vec<u8>>)
    ensures
        match r {
            Some(b) => hex_decoded(vstd::utf8::encode_utf8(text@)) == Some(b@),
            None => hex_decoded(vstd::utf8::encode_utf8(text@)) is None,
        },
{
    match hex::decode(text) {
        Ok(b) => Some(b),
        Err(_) => None,
    }
}

/// Why a key given on the command line is refused.
#[derive(Debug, Clone, Copy, PartialEq, Eq, Structural)]
pub enum KeyError {
    /// The key is not hex text.
    InvalidHex,
    /// The key is not 32 bytes long.
    WrongLength,
}

impl KeyError {
    /// The message shown, for a key to encrypt with or to decrypt with.
    pub fn message(&self, encrypting: bool) -> (r: &'static str)
        ensures
            r@ == key_error_text(*self, encrypting),
    {
        match self {
            KeyError::InvalidHex => "Invalid hex-encoded key",
            KeyError::WrongLength => if encrypting {
                "Encryption key must be 32 bytes (64 hex characters)"
            } else {
                "Decryption key must be 32 bytes (64 hex characters)"
            },
        }
    }
}

/// The message of a key error.
pub open spec fn key_error_text(e: KeyError, encrypting: bool) -> Seq<char> {
    match e {
        KeyError::InvalidHex => "Invalid hex-encoded key"@,
        KeyError::WrongLength => if encrypting {
            "Encryption key must be 32 bytes (64 hex characters)"@
        } else {
            "Decryption key must be 32 bytes (64 hex characters)"@
        },
    }
}

/// The key of the whole network.
pub open spec fn network_key() -> Seq<u8> {
    spec_sha256(vstd::utf8::encode_utf8("pipernet-network-key-v1:shared-encryption-for-distribution"@))
}

/// The key a package command uses: the given hex key, which must be 32
/// bytes, or else the network key.
pub fn package_key(key_hex: Option<&str>) -> (r: Result<[u8; KEY_SIZE], KeyError>)
    ensures
        key_hex is None ==> (r matches Ok(k) && k@ == network_key()),
        key_hex matches Some(h) ==> match hex_decoded(vstd::utf8::encode_utf8(h@)) {
            None => r == Err::<[u8; KEY_SIZE], KeyError>(KeyError::InvalidHex),
            Some(b) => if b.len() != 32 {
                r == Err::<[u8; KEY_SIZE], KeyError>(KeyError::WrongLength)
            } else {
                (r matches Ok(k) && k@ == b)
            },
        },
{
    match key_hex {
        None => Ok(get_network_key()),
        Some(h) => match hex_decode(h) {
            None => Err(KeyError::InvalidHex),
            Some(b) => {
                if b.len() != 32 {
                    return Err(KeyError::WrongLength);
                }
                let mut k = [0u8; KEY_SIZE];
                let mut i: usize = 0;
                while i < 32
                    invariant
                        0 <= i <= 32,
                        b@.len() == 32,
                        k@.len() == 32,
                        forall|j: int| 0 <= j < i ==> k@[j] == b@[j],
                    decreases 32 - i,
                {
                    k[i] = b[i];
                    i = i + 1;
                }
                assert(k@ =~= b@);
                Ok(k)
            },
        },
    }
}

/// Why a file is no package.
#[derive(Debug, Clone, Copy, PartialEq, Eq, Structural)]
pub enum PackageFileError {
    /// Fewer than four bytes.
    TooSmall,
    /// It does not open with the package magic.
    WrongMagic,
}

impl PackageFileError {
    /// The message `package verify` shows.
    pub fn message(&self) -> (r: &'static str)
        ensures
            r@ == (match *self {
                PackageFileError::TooSmall => "Invalid package: file too small"@,
                PackageFileError::WrongMagic => "Invalid package: incorrect magic bytes"@,
            }),
    {
        match self {
            PackageFileError::TooSmall => "Invalid package: file too small",
            PackageFileError::WrongMagic => "Invalid package: incorrect magic bytes",
        }
    }
}

/// Whether `bytes` open as a package file: at least four bytes, the first
/// four being the package magic.
pub fn check_package_file(bytes: &[u8]) -> (r: Result<(), PackageFileError>)
    ensures
        bytes@.len() < 4 ==> r == Err::<(), PackageFileError>(PackageFileError::TooSmall),
        bytes@.len() >= 4 && bytes@.take(4) != magic() ==> r == Err::<(), PackageFileError>(
            PackageFileError::WrongMagic,
        ),
        bytes@.len() >= 4 && bytes@.take(4) == magic() ==> r is Ok,
{
    if bytes.len() < 4 {
        return Err(PackageFileError::TooSmall);
    }
    if bytes[0] == 0x50u8 && bytes[1] == 0x4eu8 && bytes[2] == 0x01u8 && bytes[3] == 0x00u8 {
        assert(bytes@.take(4) =~= magic());
        Ok(())
    } else {
        proof {
            if bytes@.take(4) == magic() {
                assert(bytes@.take(4)[0] == bytes@[0]);
                assert(bytes@.take(4)[1] == bytes@[1]);
                assert(bytes@.take(4)[2] == bytes@[2]);
                assert(bytes@.take(4)[3] == bytes@[3]);
            }
        }
        Err(PackageFileError::WrongMagic)
    }
}

/// The first failure met decrypting the ciphertexts in order, if any.
pub open spec fn first_decrypt_error(cts: Seq<Seq<u8>>, key: Seq<u8>) -> Option<CryptoError>
    decreases cts.len(),
{
    if cts.len() == 0 {
        None
    } else {
        match decrypt_outcome(cts[0], key) {
            Err(e) => Some(e),
            Ok(_) => first_decrypt_error(cts.drop_first(), key),
        }
    }
}

/// The ciphertexts of a list of entries.
pub open spec fn entry_texts(e: Seq<(String, Vec<u8>)>) -> Seq<Seq<u8>> {
    e.map_values(|p: (String, Vec<u8>)| p.1@)
}

/// The ciphertexts of a package, in the order `extract` decrypts them:
/// the module, the assets, then the dependencies.
pub open spec fn package_ciphertexts(pkg: PiperNetPackage) -> Seq<Seq<u8>> {
    seq![pkg.module@] + entry_texts(pkg.assets.spec_entries()) + entry_texts(
        pkg.dependencies.spec_entries(),
    )
}

/// The plaintext of a ciphertext that decrypts.
pub open spec fn plain(ct: Seq<u8>, key: Seq<u8>) -> Seq<u8> {
    match decrypt_outcome(ct, key) {
        Ok(p) => p,
        Err(_) => Seq::empty(),
    }
}

/// The file a dependency is extracted to.
pub open spec fn dependency_file(name: Seq<char>) -> Seq<char> {
    "dependencies/"@ + name + ".wasm"@
}

/// The files `package extract` writes besides the manifest, as paths
/// under the output directory with their contents: `module.wasm`, each
/// asset at its path, each dependency at `dependencies/<name>.wasm`.
pub open spec fn extraction_is(files: Seq<(String, Vec<u8>)>, pkg: PiperNetPackage, key: Seq<u8>) -> bool {
    let a = pkg.assets.spec_entries();
    let d = pkg.dependencies.spec_entries();
    &&& files.len() == 1 + a.len() + d.len()
    &&& files[0].0@ == "module.wasm"@
    &&& files[0].1@ == plain(pkg.module@, key)
    &&& forall|i: int| 0 <= i < a.len() ==> (#[trigger] files[1 + i]).0@ == a[i].0@ && files[1
        + i].1@ == plain(a[i].1@, key)
    &&& forall|j: int| 0 <= j < d.len() ==> (#[trigger] files[1 + a.len() + j]).0@ == dependency_file(
        d[j].0@,
    ) && files[1 + a.len() + j].1@ == plain(d[j].1@, key)
}

proof fn lemma_first_error_append(cts: Seq<Seq<u8>>, ct: Seq<u8>, key: Seq<u8>)
    requires
        first_decrypt_error(cts, key) is None,
    ensures
        first_decrypt_error(cts.push(ct), key) == (match decrypt_outcome(ct, key) {
            Err(e) => Some(e),
            Ok(_) => None::<CryptoError>,
        }),
    decreases cts.len(),
{
    if cts.len() == 0 {
        assert(cts.push(ct).drop_first() =~= Seq::<Seq<u8>>::empty());
    } else {
        assert(cts.push(ct).drop_first() =~= cts.drop_first().push(ct));
        assert(cts.push(ct)[0] == cts[0]);
        lemma_first_error_append(cts.drop_first(), ct, key);
    }
}

proof fn lemma_first_error_prefix(cts: Seq<Seq<u8>>, rest: Seq<Seq<u8>>, key: Seq<u8>)
    requires
        first_decrypt_error(cts, key) is Some,
    ensures
        first_decrypt_error(cts + rest, key) == first_decrypt_error(cts, key),
    decreases cts.len(),
{
    assert((cts + rest)[0] == cts[0]);
    if decrypt_outcome(cts[0], key) is Ok {
        assert((cts + rest).drop_first() =~= cts.drop_first() + rest);
        lemma_first_error_prefix(cts.drop_first(), rest, key);
    }
}

fn decrypt_entries(
    entries: &Vec<(String, Vec<u8>)>,
    key: &[u8],
    dependency_paths: bool,
    done: Ghost<Seq<Seq<u8>>>,
    out: &mut Vec<(String, Vec<u8>)>,
) -> (r: Result<(), CryptoError>)
    requires
        first_decrypt_error(done@, key@) is None,
    ensures
        match first_decrypt_error(done@ + entry_texts(entries@), key@) {
            Some(e) => r == Err::<(), CryptoError>(e),
            None => r is Ok,
        },
        r is Ok ==> final(out)@.len() == old(out)@.len() + entries@.len() && final(out)@.take(
            old(out)@.len() as int,
        ) == old(out)@ && forall|i: int| 0 <= i < entries@.len() ==> (if dependency_paths {
            (#[trigger] final(out)@[old(out)@.len() + i]).0@ == dependency_file(entries@[i].0@)
        } else {
            final(out)@[old(out)@.len() + i].0@ == entries@[i].0@
        }) && final(out)@[old(out)@.len() + i].1@ == plain(entries@[i].1@, key@),
{
    let ghost out0 = out@;
    let ghost all = done@ + entry_texts(entries@);
    let mut i: usize = 0;
    proof {
        assert(done@ + entry_texts(entries@).take(0) =~= done@);
    }
    while i < entries.len()
        invariant
            0 <= i <= entries@.len(),
            all == done@ + entry_texts(entries@),
            first_decrypt_error(done@ + entry_texts(entries@).take(i as int), key@) is None,
            out@.len() == out0.len() + i,
            out@.take(out0.len() as int) == out0,
            forall|k: int| 0 <= k < i ==> (if dependency_paths {
                (#[trigger] out@[out0.len() + k]).0@ == dependency_file(entries@[k].0@)
            } else {
                out@[out0.len() + k].0@ == entries@[k].0@
            }) && out@[out0.len() + k].1@ == plain(entries@[k].1@, key@),
        decreases entries@.len() - i,
    {
        let (name, ct) = &entries[i];
        let ghost prefix = done@ + entry_texts(entries@).take(i as int);
        proof {
            assert(done@ + entry_texts(entries@).take(i + 1) =~= prefix.push(ct@));
            lemma_first_error_append(prefix, ct@, key@);
        }
        match decrypt(ct.as_slice(), key) {
            Ok(p) => {
                let path = if dependency_paths {
                    let mut f = lit("dependencies/");
                    f.append(name.as_str());
                    f.append(".wasm");
                    f
                } else {
                    lit(name.as_str())
                };
                let ghost before = out@;
                out.push((path, p));
                proof {
                    assert(out@.take(out0.len() as int) =~= before.take(out0.len() as int));
                    assert forall|k: int| 0 <= k < i + 1 implies (if dependency_paths {
                        (#[trigger] out@[out0.len() + k]).0@ == dependency_file(entries@[k].0@)
                    } else {
                        out@[out0.len() + k].0@ == entries@[k].0@
                    }) && out@[out0.len() + k].1@ == plain(entries@[k].1@, key@) by {
                        if k < i {
                            assert(out@[out0.len() + k] == before[out0.len() + k]);
                        }
                    }
                }
            },
            Err(e) => {
                proof {
                    assert(all =~= (done@ + entry_texts(entries@).take(i + 1)) + entry_texts(
                        entries@,
                    ).skip(i + 1));
                    lemma_first_error_prefix(
                        done@ + entry_texts(entries@).take(i + 1),
                        entry_texts(entries@).skip(i + 1),
                        key@,
                    );
                }
                return Err(e);
            },
        }
        i = i + 1;
    }
    proof {
        assert(entry_texts(entries@).take(entries@.len() as int) =~= entry_texts(entries@));
    }
    Ok(())
}

/// The files `package extract` writes besides the manifest (see
/// `extraction_is`), decrypted under `key`; the first ciphertext that
/// does not decrypt, in the order module, assets, dependencies, stops it
/// with its error.
pub fn extraction_files(pkg: &PiperNetPackage, key: &[u8]) -> (r: Result<Vec<(String, Vec<u8>)>, CryptoError>)
    ensures
        match first_decrypt_error(package_ciphertexts(*pkg), key@) {
            Some(e) => r == Err::<Vec<(String, Vec<u8>)>, CryptoError>(e),
            None => (r matches Ok(files) && extraction_is(files@, *pkg, key@)),
        },
{
    let ghost mods = seq![pkg.module@];
    let ghost at = entry_texts(pkg.assets.spec_entries());
    let ghost dt = entry_texts(pkg.dependencies.spec_entries());
    proof {
        assert(package_ciphertexts(*pkg) == mods + at + dt);
        assert(mods.drop_first() =~= Seq::<Seq<u8>>::empty());
    }
    let mut files: Vec<(String, Vec<u8>)> = Vec::new();
    match decrypt(pkg.module.as_slice(), key) {
        Ok(m) => {
            files.push((lit("module.wasm"), m));
        },
        Err(e) => {
            proof {
                lemma_first_error_prefix(mods, at + dt, key@);
                assert(mods + at + dt =~= mods + (at + dt));
            }
            return Err(e);
        },
    }
    proof {
        assert(first_decrypt_error(mods.drop_first(), key@) is None);
    }
    let ghost first = files@;
    assert(first.len() == 1 && first[0].0@ == "module.wasm"@ && first[0].1@ == plain(pkg.module@, key@));
    let assets = pkg.assets.pairs();
    match decrypt_entries(assets, key, false, Ghost(mods), &mut files) {
        Ok(()) => {},
        Err(e) => {
            proof {
                lemma_first_error_prefix(mods + at, dt, key@);
            }
            return Err(e);
        },
    }
    let ghost mid = files@;
    assert(mid.take(1) == first);
    assert(mid.take(1)[0] == mid[0]);
    let deps = pkg.dependencies.pairs();
    let r = decrypt_entries(deps, key, true, Ghost(mods + at), &mut files);
    match r {
        Ok(()) => {
            proof {
                let a = pkg.assets.spec_entries();
                let d = pkg.dependencies.spec_entries();
                assert forall|i: int| 0 <= i < a.len() implies (#[trigger] files@[1 + i]).0@ == a[i].0@
                    && files@[1 + i].1@ == plain(a[i].1@, key@) by {
                    assert(files@.take(mid.len() as int)[1 + i] == mid[1 + i]);
                }
                assert(files@.take(mid.len() as int)[0] == mid[0]);
            }
            Ok(files)
        },
        Err(e) => Err(e),
    }
}


} // verus!
