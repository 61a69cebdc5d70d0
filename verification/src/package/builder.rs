//! Building packages from a manifest and the files it names.

use vstd::prelude::*;
use vstd::string::StringExecFns;
use crate::assoc::{StringMap, TextMap};
use crate::paths::{path_join, join_path};
use crate::text::{lit, copy_string, copy_bytes, texts_of, opt_text, copy_opt, copy_strings};
use super::PiperNetPackage;
use super::crypto::{CryptoError, encrypt, decrypt_outcome, KEY_SIZE, aead_max};
use super::manifest::{PackageManifest, PackageMetadata};

verus! {

/// Why a package could not be built.
#[derive(Debug, Clone)]
pub enum BuildError {
    /// `build` was called before the main module was set.
    ModuleNotLoaded,
    /// The main module at this path does not begin with the module magic.
    InvalidModule(String),
    /// Encryption failed.
    Crypto(CryptoError),
}

impl BuildError {
    /// The text shown for the error.
    pub fn message(&self) -> (r: String)
        ensures
            r@ == match self {
                BuildError::ModuleNotLoaded => "Module not loaded"@,
                BuildError::InvalidModule(p) => "Invalid WASM module: "@ + p@,
                BuildError::Crypto(e) => super::crypto::crypto_message(*e),
            },
    {
        match self {
            BuildError::ModuleNotLoaded => lit("Module not loaded"),
            BuildError::InvalidModule(p) => {
                let mut m = lit("Invalid WASM module: ");
                m.append(p.as_str());
                m
            },
            BuildError::Crypto(e) => e.message(),
        }
    }
}

/// The bytes every module begins with: `\0asm`.
pub open spec fn module_magic() -> Seq<u8> {
    seq![0x00u8, 0x61u8, 0x73u8, 0x6du8]
}

/// `bytes` begins with the module magic.
pub open spec fn is_module_bytes(bytes: Seq<u8>) -> bool {
    bytes.len() >= 4 && bytes.take(4) == module_magic()
}

/// Whether `bytes` begins with the module magic `\0asm`.
pub fn has_module_magic(bytes: &[u8]) -> (r: bool)
    ensures
        r == is_module_bytes(bytes@),
{
    if bytes.len() < 4 {
        return false;
    }
    let r = bytes[0] == 0x00 && bytes[1] == 0x61 && bytes[2] == 0x73 && bytes[3] == 0x6d;
    proof {
        if r {
            assert(bytes@.take(4) =~= module_magic());
        } else if bytes@.take(4) == module_magic() {
            assert(bytes@.take(4)[0] == 0x00u8);
            assert(bytes@.take(4)[1] == 0x61u8);
            assert(bytes@.take(4)[2] == 0x73u8);
            assert(bytes@.take(4)[3] == 0x6du8);
        }
    }
    r
}

/// A manifest as plain values: name, version, the optional fields,
/// package type, entrypoint, assets and dependencies.
pub open spec fn manifest_view(m: PackageManifest) -> (
    Seq<Seq<char>>,
    Seq<Option<Seq<char>>>,
    super::manifest::PackageType,
    Seq<char>,
    Seq<Seq<char>>,
    Map<Seq<char>, Seq<char>>,
) {
    (
        seq![m.metadata.name@, m.metadata.version@],
        seq![
            opt_text(m.metadata.description),
            opt_text(m.metadata.author),
            opt_text(m.metadata.license),
            opt_text(m.metadata.homepage),
            opt_text(m.metadata.repository),
        ],
        m.package_type,
        m.entrypoint@,
        texts_of(m.assets@),
        m.dependencies@,
    )
}

/// A copy of a manifest with the same contents.
pub fn copy_manifest(m: &PackageManifest) -> (r: PackageManifest)
    ensures
        manifest_view(r) == manifest_view(*m),
{
    let r = PackageManifest {
        metadata: PackageMetadata {
            name: copy_string(m.metadata.name.as_str()),
            version: copy_string(m.metadata.version.as_str()),
            description: copy_opt(&m.metadata.description),
            author: copy_opt(&m.metadata.author),
            license: copy_opt(&m.metadata.license),
            homepage: copy_opt(&m.metadata.homepage),
            repository: copy_opt(&m.metadata.repository),
        },
        package_type: m.package_type,
        entrypoint: copy_string(m.entrypoint.as_str()),
        assets: copy_strings(&m.assets),
        dependencies: m.dependencies.clone(),
    };
    proof {
        assert(manifest_view(r).0 =~= manifest_view(*m).0);
        assert(manifest_view(r).1 =~= manifest_view(*m).1);
    }
    r
}

/// Collects what a package is built from.
pub struct PackageBuilder {
    manifest: PackageManifest,
    base_dir: String,
    module_bytes: Option<Vec<u8>>,
    asset_files: TextMap<Vec<u8>>,
    dependency_files: TextMap<Vec<u8>>,
}

/// `enc` holds, under the same keys, what decrypts under `key` to the
/// values of `plain`.
pub open spec fn encrypts_all(enc: Map<Seq<char>, Vec<u8>>, plain: Map<Seq<char>, Vec<u8>>, key: Seq<u8>) -> bool {
    &&& enc.dom() == plain.dom()
    &&& forall|k: Seq<char>| #[trigger] enc.contains_key(k) ==> decrypt_outcome(enc[k]@, key) == Ok::<
        Seq<u8>,
        CryptoError,
    >(plain[k]@)
}

/// Every value of `m` is short enough for AES-GCM (see `aead_max`).
pub open spec fn within_aead_limit(m: Map<Seq<char>, Vec<u8>>) -> bool {
    forall|k: Seq<char>| #[trigger] m.contains_key(k) ==> m[k]@.len() <= aead_max()
}

fn encrypt_all(m: &TextMap<Vec<u8>>, key: &[u8]) -> (r: Result<TextMap<Vec<u8>>, CryptoError>)
    requires
        key@.len() == KEY_SIZE,
    ensures
        within_aead_limit(m@) ==> r is Ok,
        match r {
            Ok(enc) => encrypts_all(enc@, m@, key@),
            Err(e) => e == CryptoError::EncryptionFailed,
        },
{
    let pairs = m.pairs();
    let mut out: TextMap<Vec<u8>> = TextMap::new();
    let ghost ks = crate::assoc::keys_of(pairs@);
    proof {
        if within_aead_limit(m@) {
            assert forall|j: int| 0 <= j < pairs@.len() implies (#[trigger] pairs@[j]).1@.len() <= aead_max() by {
                crate::assoc::lemma_assoc_index(pairs@, j);
            }
        }
    }
    let mut i: usize = 0;
    while i < pairs.len()
        invariant
            0 <= i <= pairs@.len(),
            key@.len() == KEY_SIZE,
            crate::assoc::assoc_wf(pairs@),
            crate::assoc::assoc_view(pairs@) == m@,
            ks == crate::assoc::keys_of(pairs@),
            within_aead_limit(m@) ==> forall|j: int| 0 <= j < pairs@.len() ==> (#[trigger] pairs@[j]).1@.len() <= aead_max(),
            forall|k: Seq<char>| out@.contains_key(k) <==> exists|j: int| 0 <= j < i && ks[j] == k,
            forall|k: Seq<char>| #[trigger] out@.contains_key(k) ==> m@.contains_key(k) && decrypt_outcome(
                out@[k]@,
                key@,
            ) == Ok::<Seq<u8>, CryptoError>(m@[k]@),
        decreases pairs@.len() - i,
    {
        let (path, bytes) = &pairs[i];
        proof {
            crate::assoc::lemma_assoc_index(pairs@, i as int);
        }
        match encrypt(bytes.as_slice(), key) {
            Ok(enc) => {
                out.insert(copy_string(path.as_str()), enc);
            },
            Err(e) => {
                return Err(e);
            },
        }
        proof {
            assert(ks[i as int] == path@);
        }
        i = i + 1;
    }
    proof {
        assert(out@.dom() =~= m@.dom()) by {
            assert forall|k: Seq<char>| m@.contains_key(k) implies out@.contains_key(k) by {
                let j = choose|j: int| 0 <= j < ks.len() && ks[j] == k;
                assert(ks[j] == k);
            }
        }
    }
    Ok(out)
}

impl PackageBuilder {
    /// The manifest being built.
    pub closed spec fn spec_manifest(&self) -> PackageManifest {
        self.manifest
    }

    /// The directory the manifest's paths are relative to.
    pub closed spec fn spec_base_dir(&self) -> Seq<char> {
        self.base_dir@
    }

    /// The main module, once set.
    pub closed spec fn spec_module(&self) -> Option<Seq<u8>> {
        match self.module_bytes {
            Some(b) => Some(b@),
            None => None,
        }
    }

    /// The assets collected, by path.
    pub closed spec fn spec_assets(&self) -> Map<Seq<char>, Vec<u8>> {
        self.asset_files@
    }

    /// The dependencies collected, by name.
    pub closed spec fn spec_dependencies(&self) -> Map<Seq<char>, Vec<u8>> {
        self.dependency_files@
    }

    /// A builder for `manifest`, whose paths are relative to `base_dir`.
    pub fn new(manifest: PackageManifest, base_dir: String) -> (r: Self)
        ensures
            r.spec_manifest() == manifest,
            r.spec_base_dir() == base_dir@,
            r.spec_module() is None,
            r.spec_assets() == Map::<Seq<char>, Vec<u8>>::empty(),
            r.spec_dependencies() == Map::<Seq<char>, Vec<u8>>::empty(),
    {
        PackageBuilder {
            manifest,
            base_dir,
            module_bytes: None,
            asset_files: TextMap::new(),
            dependency_files: TextMap::new(),
        }
    }

    /// The manifest being built.
    pub fn manifest(&self) -> (r: &PackageManifest)
        ensures
            *r == self.spec_manifest(),
    {
        &self.manifest
    }

    /// Where the main module is read from: the entrypoint below the base
    /// directory.
    pub fn main_module_path(&self) -> (r: String)
        ensures
            r@ == path_join(self.spec_base_dir(), self.spec_manifest().entrypoint@),
    {
        join_path(self.base_dir.as_str(), self.manifest.entrypoint.as_str())
    }

    /// Where an asset of the manifest is read from.
    pub fn asset_path(&self, asset: &str) -> (r: String)
        ensures
            r@ == path_join(self.spec_base_dir(), asset@),
    {
        join_path(self.base_dir.as_str(), asset)
    }

    /// Where the dependency `name` is read from: `deps/<name>.wasm` below the
    /// base directory.
    pub fn dependency_path(&self, name: &str) -> (r: String)
        ensures
            r@ == path_join(path_join(self.spec_base_dir(), "deps"@), name@ + ".wasm"@),
    {
        let deps = join_path(self.base_dir.as_str(), "deps");
        let mut file = copy_string(name);
        file.append(".wasm");
        join_path(deps.as_str(), file.as_str())
    }

    /// Sets the main module, which must begin with the module magic.
    pub fn set_module(&mut self, bytes: Vec<u8>) -> (r: Result<(), BuildError>)
        ensures
            final(self).spec_manifest() == old(self).spec_manifest(),
            final(self).spec_base_dir() == old(self).spec_base_dir(),
            final(self).spec_assets() == old(self).spec_assets(),
            final(self).spec_dependencies() == old(self).spec_dependencies(),
            is_module_bytes(bytes@) ==> r is Ok && final(self).spec_module() == Some(bytes@),
            !is_module_bytes(bytes@) ==> final(self).spec_module() == old(self).spec_module(),
            !is_module_bytes(bytes@) ==> (r matches Err(BuildError::InvalidModule(p)) && p@ == path_join(
                old(self).spec_base_dir(),
                old(self).spec_manifest().entrypoint@,
            )),
    {
        if !has_module_magic(bytes.as_slice()) {
            return Err(BuildError::InvalidModule(self.main_module_path()));
        }
        self.module_bytes = Some(bytes);
        Ok(())
    }

    /// Adds the asset read for `path`.
    pub fn add_asset(&mut self, path: String, bytes: Vec<u8>)
        ensures
            final(self).spec_manifest() == old(self).spec_manifest(),
            final(self).spec_base_dir() == old(self).spec_base_dir(),
            final(self).spec_module() == old(self).spec_module(),
            final(self).spec_assets() == old(self).spec_assets().insert(path@, bytes),
            final(self).spec_dependencies() == old(self).spec_dependencies(),
    {
        self.asset_files.insert(path, bytes);
    }

    /// Adds the dependency read for `name`.
    pub fn add_dependency(&mut self, name: String, bytes: Vec<u8>)
        ensures
            final(self).spec_manifest() == old(self).spec_manifest(),
            final(self).spec_base_dir() == old(self).spec_base_dir(),
            final(self).spec_module() == old(self).spec_module(),
            final(self).spec_assets() == old(self).spec_assets(),
            final(self).spec_dependencies() == old(self).spec_dependencies().insert(name@, bytes),
    {
        self.dependency_files.insert(name, bytes);
    }

    /// Builds the package: the manifest with the module, each asset and each
    /// dependency encrypted under `key`, every part decrypting back to what
    /// was collected.
    pub fn build(&self, key: &[u8]) -> (r: Result<PiperNetPackage, BuildError>)
        ensures
            self.spec_module() is None ==> r matches Err(BuildError::ModuleNotLoaded),
            self.spec_module() is Some && key@.len() != KEY_SIZE ==> (r matches Err(
                BuildError::Crypto(e),
            ) && e == CryptoError::InvalidKeySize(key@.len() as usize)),
            (self.spec_module() matches Some(m) && key@.len() == KEY_SIZE && m.len() <= aead_max()
                && within_aead_limit(self.spec_assets()) && within_aead_limit(self.spec_dependencies()))
                ==> r is Ok,
            r matches Err(BuildError::InvalidModule(_)) ==> false,
            r matches Err(BuildError::Crypto(e)) ==> e == CryptoError::InvalidKeySize(
                key@.len() as usize,
            ) || e == CryptoError::EncryptionFailed,
            r matches Ok(p) ==> {
                &&& manifest_view(p.manifest) == manifest_view(self.spec_manifest())
                &&& decrypt_outcome(p.module@, key@) == Ok::<Seq<u8>, CryptoError>(
                    self.spec_module()->0,
                )
                &&& encrypts_all(p.assets@, self.spec_assets(), key@)
                &&& encrypts_all(p.dependencies@, self.spec_dependencies(), key@)
                &&& p.signature@.len() == 0
            },
    {
        let module = match &self.module_bytes {
            Some(m) => m,
            None => {
                return Err(BuildError::ModuleNotLoaded);
            },
        };
        let encrypted_module = match encrypt(module.as_slice(), key) {
            Ok(e) => e,
            Err(e) => {
                return Err(BuildError::Crypto(e));
            },
        };
        let assets = match encrypt_all(&self.asset_files, key) {
            Ok(a) => a,
            Err(e) => {
                return Err(BuildError::Crypto(e));
            },
        };
        let deps = match encrypt_all(&self.dependency_files, key) {
            Ok(d) => d,
            Err(e) => {
                return Err(BuildError::Crypto(e));
            },
        };
        Ok(PiperNetPackage::new(copy_manifest(&self.manifest), encrypted_module, assets, deps))
    }
}

} // verus!
