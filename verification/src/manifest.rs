//! Application manifests: metadata, dependencies and their validation.

use vstd::prelude::*;
use crate::paths::{path_join, join_path};
use crate::text::{
    chars_of, copy_string, is_alphanumeric, spec_is_alphanumeric, has_infix, seq_has_infix,
    split_chars, seq_split, char_views, parses_as_u32, is_u32_text, chars_eq,
};

verus! {

/// A manifest describing a WebAssembly application.
#[derive(Debug, Clone)]
pub struct Manifest {
    /// Application name (alphanumeric, hyphens, underscores)
    pub name: String,
    /// Semantic version
    pub version: String,
    /// Author or organization
    pub author: Option<String>,
    /// Human-readable description
    pub description: Option<String>,
    /// Path of the main WASM module, relative to the manifest
    pub module: String,
    /// Runtime configuration
    pub runtime: Option<RuntimeConfig>,
    /// Dependency specifications (name, spec); names are distinct
    pub dependencies: Option<Vec<(String, DependencySpec)>>,
    /// Required capabilities
    pub capabilities: Option<Vec<String>>,
    /// Environment variables (name, value); names are distinct
    pub env: Option<Vec<(String, String)>>,
}

/// Runtime configuration for module execution.
#[derive(Debug, Clone)]
pub struct RuntimeConfig {
    /// WASM engine backend
    pub backend: Option<String>,
    /// Maximum memory in bytes
    pub max_memory: Option<usize>,
    /// Maximum execution time in seconds
    pub max_execution_time: Option<u64>,
    /// Enable WASI support
    pub enable_wasi: Option<bool>,
    /// Entry point function name
    pub entry_point: Option<String>,
}

/// A dependency: a version requirement or a full specification.
#[derive(Debug, Clone)]
pub enum DependencySpec {
    /// A version string ("1.0.0", "^1.0", ...)
    Simple(String),
    /// A specification with content id, version and source peer
    Complex { cid: Option<String>, version: Option<String>, from: Option<String> },
}

/// A manifest that passed validation, with the directory it was read from.
#[derive(Debug, Clone)]
pub struct ValidatedManifest {
    inner: Manifest,
    base_dir: String,
}

/// Why a manifest was rejected.
#[derive(Debug, Clone, PartialEq, Eq, Structural)]
pub enum ManifestError {
    /// The name is empty
    NameRequired,
    /// The name has characters other than alphanumerics, hyphens and underscores,
    /// or starts with a hyphen or underscore
    InvalidName,
    /// The version is empty
    VersionRequired,
    /// The module path is empty
    ModuleRequired,
    /// The module path contains `..`
    ModulePathTraversal,
}

/// `s` is a valid identifier: non-empty, alphanumerics, `-` and `_` only,
/// not starting with `-` or `_`.
pub open spec fn is_identifier(s: Seq<char>) -> bool {
    &&& s.len() > 0
    &&& forall|i: int|
        0 <= i < s.len() ==> spec_is_alphanumeric(#[trigger] s[i]) || s[i] == '-' || s[i] == '_'
    &&& s[0] != '-'
    &&& s[0] != '_'
}

/// `v` is `major.minor` or `major.minor.patch`, each part a `u32`.
pub open spec fn is_semver_text(v: Seq<char>) -> bool {
    let parts = seq_split(v, '.');
    &&& 2 <= parts.len() <= 3
    &&& forall|i: int| 0 <= i < parts.len() ==> is_u32_text(#[trigger] parts[i])
}

/// `s` is among the strings of `v`.
pub open spec fn strings_contain(v: Seq<String>, s: Seq<char>) -> bool {
    exists|i: int| 0 <= i < v.len() && (#[trigger] v[i])@ == s
}

/// The capabilities a manifest may require.
pub open spec fn is_capability(c: Seq<char>) -> bool {
    c == "network"@ || c == "storage"@ || c == "crypto"@ || c == "filesystem"@ || c
        == "threading"@ || c == "random"@ || c == "time"@ || c == "env"@
}

/// The outcome of validating a manifest: the first failed check, if any.
pub open spec fn manifest_check(m: Manifest) -> Option<ManifestError> {
    if m.name@.len() == 0 {
        Some(ManifestError::NameRequired)
    } else if !is_identifier(m.name@) {
        Some(ManifestError::InvalidName)
    } else if m.version@.len() == 0 {
        Some(ManifestError::VersionRequired)
    } else if m.module@.len() == 0 {
        Some(ManifestError::ModuleRequired)
    } else if seq_has_infix(m.module@, ".."@) {
        Some(ManifestError::ModulePathTraversal)
    } else {
        None
    }
}

fn eq_lit(a: &str, b: &str) -> (r: bool)
    ensures
        r == (a@ == b@),
{
    let x = chars_of(a);
    let y = chars_of(b);
    chars_eq(x.as_slice(), y.as_slice())
}

impl ManifestError {
    /// The human-readable message of the error.
    pub fn message(&self) -> (r: String)
        ensures
            match self {
                ManifestError::NameRequired => r@
                    == "Manifest field 'name' is required and cannot be empty"@,
                ManifestError::InvalidName => r@
                    == "Manifest 'name' must contain only alphanumeric characters, hyphens, and underscores"@,
                ManifestError::VersionRequired => r@ == "Manifest field 'version' is required"@,
                ManifestError::ModuleRequired => r@ == "Manifest field 'module' is required"@,
                ManifestError::ModulePathTraversal => r@
                    == "Module path cannot contain '..' for security reasons"@,
            },
    {
        let s: &str = match self {
            ManifestError::NameRequired => "Manifest field 'name' is required and cannot be empty",
            ManifestError::InvalidName =>
                "Manifest 'name' must contain only alphanumeric characters, hyphens, and underscores",
            ManifestError::VersionRequired => "Manifest field 'version' is required",
            ManifestError::ModuleRequired => "Manifest field 'module' is required",
            ManifestError::ModulePathTraversal =>
                "Module path cannot contain '..' for security reasons",
        };
        copy_string(s)
    }
}

fn copy_opt_string(s: &Option<String>) -> (r: Option<String>)
    ensures
        r == *s,
{
    match s {
        Some(x) => Some(x.clone()),
        None => None,
    }
}

impl DependencySpec {
    /// A copy of this specification.
    pub fn duplicate(&self) -> (r: DependencySpec)
        ensures
            r == *self,
    {
        match self {
            DependencySpec::Simple(v) => DependencySpec::Simple(v.clone()),
            DependencySpec::Complex { cid, version, from } => DependencySpec::Complex {
                cid: copy_opt_string(cid),
                version: copy_opt_string(version),
                from: copy_opt_string(from),
            },
        }
    }
}

impl Manifest {
    /// Validate the manifest. The checks that only warn (an unusual version
    /// format, an unknown capability or backend) do not reject it.
    pub fn validate(&self) -> (r: Result<(), ManifestError>)
        ensures
            match manifest_check(*self) {
                Some(e) => r == Err::<(), ManifestError>(e),
                None => r is Ok,
            },
    {
        let name = chars_of(self.name.as_str());
        if name.len() == 0 {
            return Err(ManifestError::NameRequired);
        }
        if !Self::is_valid_identifier(self.name.as_str()) {
            return Err(ManifestError::InvalidName);
        }
        let version = chars_of(self.version.as_str());
        if version.len() == 0 {
            return Err(ManifestError::VersionRequired);
        }
        let module = chars_of(self.module.as_str());
        if module.len() == 0 {
            return Err(ManifestError::ModuleRequired);
        }
        let dots = chars_of("..");
        if has_infix(module.as_slice(), dots.as_slice()) {
            return Err(ManifestError::ModulePathTraversal);
        }
        match &self.dependencies {
            Some(deps) => {
                let _ = Self::check_dependency_cycles(deps);
            },
            None => {},
        }
        Ok(())
    }

    /// Check the dependency table for cycles. Dependencies name other
    /// modules by version, not by entries of this table, so a single table
    /// cannot form a cycle: every name is visited and the check succeeds.
    pub fn check_dependency_cycles(deps: &Vec<(String, DependencySpec)>) -> (r: Result<
        (),
        ManifestError,
    >)
        ensures
            r is Ok,
    {
        let mut visited: Vec<String> = Vec::new();
        let mut rec_stack: Vec<String> = Vec::new();
        let mut i: usize = 0;
        while i < deps.len()
            invariant
                0 <= i <= deps@.len(),
            decreases deps@.len() - i,
        {
            let name = &deps[i].0;
            let mut seen = false;
            let mut j: usize = 0;
            while j < visited.len()
                invariant
                    0 <= j <= visited@.len(),
                decreases visited@.len() - j,
            {
                if eq_lit(visited[j].as_str(), name.as_str()) {
                    seen = true;
                }
                j = j + 1;
            }
            if !seen {
                let _ = Self::dfs_check(&mut visited, &mut rec_stack, name.as_str(), deps);
            }
            i = i + 1;
        }
        Ok(())
    }

    /// Depth-first visit of `node`: it is marked visited, and leaves the
    /// recursion stack as it returns.
    pub fn dfs_check(
        visited: &mut Vec<String>,
        rec_stack: &mut Vec<String>,
        node: &str,
        deps: &Vec<(String, DependencySpec)>,
    ) -> (r: Result<(), ManifestError>)
        ensures
            r is Ok,
            final(visited)@.len() == old(visited)@.len() + 1,
            final(visited)@.last()@ == node@,
            final(rec_stack)@ == old(rec_stack)@,
    {
        visited.push(copy_string(node));
        rec_stack.push(copy_string(node));
        rec_stack.pop();
        Ok(())
    }

    /// Whether `s` is a valid identifier.
    pub fn is_valid_identifier(s: &str) -> (r: bool)
        ensures
            r == is_identifier(s@),
    {
        let c = chars_of(s);
        if c.len() == 0 {
            return false;
        }
        let mut i: usize = 0;
        while i < c.len()
            invariant
                0 <= i <= c@.len(),
                c@ == s@,
                forall|j: int|
                    0 <= j < i ==> spec_is_alphanumeric(#[trigger] c@[j]) || c@[j] == '-' || c@[j]
                        == '_',
            decreases c@.len() - i,
        {
            let ch = c[i];
            if !(is_alphanumeric(ch) || ch == '-' || ch == '_') {
                return false;
            }
            i = i + 1;
        }
        c[0] != '-' && c[0] != '_'
    }

    /// Whether `version` is `major.minor` or `major.minor.patch` with numeric parts.
    pub fn is_valid_semver(version: &str) -> (r: bool)
        ensures
            r == is_semver_text(version@),
    {
        let c = chars_of(version);
        let parts = split_chars(c.as_slice(), '.');
        if parts.len() < 2 || parts.len() > 3 {
            return false;
        }
        let mut i: usize = 0;
        while i < parts.len()
            invariant
                0 <= i <= parts@.len(),
                char_views(parts@) == seq_split(version@, '.'),
                forall|j: int| 0 <= j < i ==> is_u32_text(#[trigger] char_views(parts@)[j]),
            decreases parts@.len() - i,
        {
            if !parses_as_u32(parts[i].as_slice()) {
                assert(char_views(parts@)[i as int] == parts@[i as int]@);
                return false;
            }
            assert(char_views(parts@)[i as int] == parts@[i as int]@);
            i = i + 1;
        }
        true
    }

    /// Whether `cap` is a recognized capability.
    pub fn is_valid_capability(cap: &str) -> (r: bool)
        ensures
            r == is_capability(cap@),
    {
        eq_lit(cap, "network") || eq_lit(cap, "storage") || eq_lit(cap, "crypto") || eq_lit(
            cap,
            "filesystem",
        ) || eq_lit(cap, "threading") || eq_lit(cap, "random") || eq_lit(cap, "time") || eq_lit(
            cap,
            "env",
        )
    }
}

impl ValidatedManifest {
    /// Validate `manifest`, read from `base_dir`.
    pub fn new(manifest: Manifest, base_dir: String) -> (r: Result<Self, ManifestError>)
        ensures
            match manifest_check(manifest) {
                Some(e) => r == Err::<ValidatedManifest, ManifestError>(e),
                None => (r matches Ok(v) && v.manifest() == manifest && v.base() == base_dir@),
            },
    {
        match manifest.validate() {
            Ok(()) => Ok(ValidatedManifest { inner: manifest, base_dir }),
            Err(e) => Err(e),
        }
    }

    /// The directory of the manifest.
    pub closed spec fn base(&self) -> Seq<char> {
        self.base_dir@
    }

    /// The manifest.
    pub closed spec fn manifest(&self) -> Manifest {
        self.inner
    }

    /// The path of the main module: the module path joined onto the base directory.
    pub fn main_module_path(&self) -> (r: String)
        ensures
            r@ == path_join(self.base(), self.manifest().module@),
    {
        join_path(self.base_dir.as_str(), self.inner.module.as_str())
    }

    /// All dependencies (none when the manifest lists none).
    pub fn dependencies(&self) -> (r: Vec<(String, DependencySpec)>)
        ensures
            match self.manifest().dependencies {
                Some(d) => r@ == d@,
                None => r@.len() == 0,
            },
    {
        let mut out: Vec<(String, DependencySpec)> = Vec::new();
        match &self.inner.dependencies {
            Some(d) => {
                let mut i: usize = 0;
                while i < d.len()
                    invariant
                        0 <= i <= d@.len(),
                        out@ == d@.take(i as int),
                    decreases d@.len() - i,
                {
                    let item = (d[i].0.clone(), d[i].1.duplicate());
                    out.push(item);
                    proof {
                        assert(d@.take(i + 1) =~= d@.take(i as int).push(d@[i as int]));
                    }
                    i = i + 1;
                }
                assert(d@.take(i as int) =~= d@);
            },
            None => {},
        }
        out
    }

    /// Whether the manifest requires capability `cap`.
    pub fn requires_capability(&self, cap: &str) -> (r: bool)
        ensures
            r == (self.manifest().capabilities matches Some(caps) && strings_contain(caps@, cap@)),
    {
        match &self.inner.capabilities {
            Some(caps) => {
                let mut i: usize = 0;
                while i < caps.len()
                    invariant
                        0 <= i <= caps@.len(),
                        self.inner.capabilities == Some(*caps),
                        forall|j: int| 0 <= j < i ==> (#[trigger] caps@[j])@ != cap@,
                    decreases caps@.len() - i,
                {
                    if eq_lit(caps[i].as_str(), cap) {
                        assert(caps@[i as int]@ == cap@);
                        assert(strings_contain(caps@, cap@));
                        return true;
                    }
                    i = i + 1;
                }
                false
            },
            None => false,
        }
    }

    /// The environment variables (none when the manifest lists none).
    pub fn env_vars(&self) -> (r: Vec<(String, String)>)
        ensures
            match self.manifest().env {
                Some(e) => r@ == e@,
                None => r@.len() == 0,
            },
    {
        let mut out: Vec<(String, String)> = Vec::new();
        match &self.inner.env {
            Some(e) => {
                let mut i: usize = 0;
                while i < e.len()
                    invariant
                        0 <= i <= e@.len(),
                        out@ == e@.take(i as int),
                    decreases e@.len() - i,
                {
                    let item = (e[i].0.clone(), e[i].1.clone());
                    out.push(item);
                    proof {
                        assert(e@.take(i + 1) =~= e@.take(i as int).push(e@[i as int]));
                    }
                    i = i + 1;
                }
                assert(e@.take(i as int) =~= e@);
            },
            None => {},
        }
        out
    }

    /// The runtime configuration.
    pub fn runtime(&self) -> (r: Option<&RuntimeConfig>)
        ensures
            match self.manifest().runtime {
                Some(rc) => r == Some(&rc),
                None => r is None,
            },
    {
        match &self.inner.runtime {
            Some(rc) => Some(rc),
            None => None,
        }
    }

    /// The validated manifest.
    pub fn inner(&self) -> (r: &Manifest)
        ensures
            *r == self.manifest(),
    {
        &self.inner
    }
}

spec fn word_sig(w: Seq<char>) -> (int, char, char) {
    (w.len() as int, w[0], w[w.len() - 1])
}

/// The capabilities a manifest may require are exactly `network`,
/// `storage`, `crypto`, `filesystem`, `threading`, `random`, `time` and
/// `env`.
pub proof fn lemma_known_capabilities(c: Seq<char>)
    ensures
        is_capability(c) <==> (c == "network"@ || c == "storage"@ || c == "crypto"@ || c == "filesystem"@ || c == "threading"@ || c == "random"@ || c == "time"@ || c == "env"@),
{
    reveal_strlit("network");
    assert(word_sig("network"@) == (7int, 'n', 'k'));
    reveal_strlit("storage");
    assert(word_sig("storage"@) == (7int, 's', 'e'));
    reveal_strlit("crypto");
    assert(word_sig("crypto"@) == (6int, 'c', 'o'));
    reveal_strlit("filesystem");
    assert(word_sig("filesystem"@) == (10int, 'f', 'm'));
    reveal_strlit("threading");
    assert(word_sig("threading"@) == (9int, 't', 'g'));
    reveal_strlit("random");
    assert(word_sig("random"@) == (6int, 'r', 'm'));
    reveal_strlit("time");
    assert(word_sig("time"@) == (4int, 't', 'e'));
    reveal_strlit("env");
    assert(word_sig("env"@) == (3int, 'e', 'v'));
}

/// A manifest is accepted exactly when its name is a non-empty identifier,
/// its version and module are given, and its module path has no `..`;
/// a name starting with `-` or `_` is refused as invalid, and a module path
/// with `..` in it is refused whatever the other fields hold.
pub proof fn lemma_manifest_acceptance(m: Manifest)
    ensures
        manifest_check(m) is None <==> {
            &&& m.name@.len() > 0
            &&& is_identifier(m.name@)
            &&& m.version@.len() > 0
            &&& m.module@.len() > 0
            &&& !seq_has_infix(m.module@, ".."@)
        },
        m.name@.len() > 0 && (m.name@[0] == '-' || m.name@[0] == '_') ==> manifest_check(m)
            == Some(ManifestError::InvalidName),
        seq_has_infix(m.module@, ".."@) ==> manifest_check(m) is Some,
{
}

} // verus!
