//! Deploying an application: the YAML manifest that may describe it, the
//! module it names, and the name and version it is published under.

use vstd::prelude::*;
use vstd::string::StringExecFns;
use crate::content::publisher::ModuleMetadata;
use crate::paths::{
    path_join, join_path, path_extension, spec_path_extension, path_parent, spec_path_parent,
};
use crate::text::{lit, copy_string, str_eq, opt_text};

verus! {

/// An application manifest (YAML): what it is called and which module it
/// runs.
#[derive(Debug, Clone)]
pub struct AppManifest {
    pub name: Option<String>,
    pub version: Option<String>,
    pub author: Option<String>,
    pub description: Option<String>,
    pub module: Option<String>,
    pub runtime: Option<AppRuntime>,
}

/// The runtime section of an application manifest.
#[derive(Debug, Clone)]
pub struct AppRuntime {
    pub backend: Option<AppBackend>,
}

/// The backend of an application.
#[derive(Debug, Clone)]
pub struct AppBackend {
    pub module: Option<String>,
}

/// A path names a manifest: its extension is `yaml` or `yml`.
pub open spec fn manifest_path(path: Seq<char>) -> bool {
    spec_path_extension(path) == Some("yaml"@) || spec_path_extension(path) == Some("yml"@)
}

/// Whether `path` names an application manifest.
pub fn is_manifest_path(path: &str) -> (r: bool)
    ensures
        r == manifest_path(path@),
{
    match path_extension(path) {
        Some(e) => {
            proof {
                reveal_strlit("yaml");
                reveal_strlit("yml");
            }
            str_eq(e.as_str(), "yaml") || str_eq(e.as_str(), "yml")
        },
        None => false,
    }
}

/// The module a manifest names: its `module`, else its backend's.
pub open spec fn manifest_module(m: AppManifest) -> Option<Seq<char>> {
    match m.module {
        Some(x) => Some(x@),
        None => match m.runtime {
            Some(rt) => match rt.backend {
                Some(b) => match b.module {
                    Some(x) => Some(x@),
                    None => None,
                },
                None => None,
            },
            None => None,
        },
    }
}

/// Why a manifest names no module.
#[derive(Debug, Clone, Copy, PartialEq, Eq, Structural)]
pub enum ManifestError {
    /// Neither the manifest nor its backend names a module.
    MissingModule,
}

impl ManifestError {
    /// The error's message.
    pub fn message(&self) -> (r: &'static str)
        ensures
            r@ == "Manifest missing module path"@,
    {
        "Manifest missing module path"
    }
}

/// The module file of the manifest at `path`: the module it names, taken
/// relative to the manifest's directory (`.` when it has none).
pub fn resolve_manifest_module(path: &str, manifest: &AppManifest) -> (r: Result<String, ManifestError>)
    ensures
        match manifest_module(*manifest) {
            None => r == Err::<String, ManifestError>(ManifestError::MissingModule),
            Some(m) => (r matches Ok(p) && p@ == path_join(
                match spec_path_parent(path@) {
                    Some(d) => d,
                    None => "."@,
                },
                m,
            )),
        },
{
    let module: &String = match &manifest.module {
        Some(x) => x,
        None => match &manifest.runtime {
            Some(rt) => match &rt.backend {
                Some(b) => match &b.module {
                    Some(x) => x,
                    None => {
                        return Err(ManifestError::MissingModule);
                    },
                },
                None => {
                    return Err(ManifestError::MissingModule);
                },
            },
            None => {
                return Err(ManifestError::MissingModule);
            },
        },
    };
    let base = match path_parent(path) {
        Some(d) => d,
        None => lit("."),
    };
    Ok(join_path(base.as_str(), module.as_str()))
}

/// What a deployment is published as: name, version, author and
/// description.
#[derive(Debug, Clone)]
pub struct DeployIdentity {
    pub name: String,
    pub version: String,
    pub author: Option<String>,
    pub description: Option<String>,
}

/// The first of two optional texts that is there.
pub open spec fn either(a: Option<Seq<char>>, b: Option<Seq<char>>) -> Option<Seq<char>> {
    match a {
        Some(x) => Some(x),
        None => b,
    }
}

fn either_copy(a: Option<String>, b: &Option<String>) -> (r: Option<String>)
    ensures
        opt_text(r) == either(opt_text(a), opt_text(*b)),
{
    match a {
        Some(x) => Some(x),
        None => match b {
            Some(y) => Some(copy_string(y.as_str())),
            None => None,
        },
    }
}

/// What a deployment is published as: each field given on the command line,
/// else in the manifest; the name defaults to `unnamed` and the version to
/// `0.1.0`.
pub fn deploy_identity(
    name: Option<String>,
    version: Option<String>,
    author: Option<String>,
    description: Option<String>,
    manifest: Option<&AppManifest>,
) -> (r: DeployIdentity)
    ensures
        ({
            let (mn, mv, ma, md) = match manifest {
                Some(m) => (opt_text(m.name), opt_text(m.version), opt_text(m.author), opt_text(m.description)),
                None => (None, None, None, None),
            };
            &&& r.name@ == (match either(opt_text(name), mn) {
                Some(x) => x,
                None => "unnamed"@,
            })
            &&& r.version@ == (match either(opt_text(version), mv) {
                Some(x) => x,
                None => "0.1.0"@,
            })
            &&& opt_text(r.author) == either(opt_text(author), ma)
            &&& opt_text(r.description) == either(opt_text(description), md)
        }),
{
    let none: Option<String> = None;
    let (mn, mv, ma, md) = match manifest {
        Some(m) => (&m.name, &m.version, &m.author, &m.description),
        None => (&none, &none, &none, &none),
    };
    let n = match either_copy(name, mn) {
        Some(x) => x,
        None => lit("unnamed"),
    };
    let v = match either_copy(version, mv) {
        Some(x) => x,
        None => lit("0.1.0"),
    };
    DeployIdentity { name: n, version: v, author: either_copy(author, ma), description: either_copy(description, md) }
}

/// The line `search` prints for a module found:
/// `- <name> @ <version> (CID: <cid>)`, with `unnamed` and `unknown` for
/// what is missing.
pub open spec fn search_line_text(m: ModuleMetadata) -> Seq<char> {
    "- "@ + (match m.name {
        Some(n) => n@,
        None => "unnamed"@,
    }) + " @ "@ + (match m.version {
        Some(v) => v@,
        None => "unknown"@,
    }) + " (CID: "@ + m.cid@ + ")"@
}

/// The line `search` prints for a module found (see `search_line_text`).
pub fn search_line(m: &ModuleMetadata) -> (r: String)
    ensures
        r@ == search_line_text(*m),
{
    let mut s = lit("- ");
    match &m.name {
        Some(n) => s.append(n.as_str()),
        None => s.append("unnamed"),
    }
    s.append(" @ ");
    match &m.version {
        Some(v) => s.append(v.as_str()),
        None => s.append("unknown"),
    }
    s.append(" (CID: ");
    s.append(m.cid.as_str());
    s.append(")");
    s
}

/// The function `run` calls in a core module: the one given, else `_start`.
pub fn run_function(function: &Option<String>) -> (r: String)
    ensures
        r@ == (match function {
            Some(f) => f@,
            None => "_start"@,
        }),
{
    match function {
        Some(f) => copy_string(f.as_str()),
        None => lit("_start"),
    }
}

/// The memory limit `run` sets, in bytes, for a limit given in MiB.
pub fn run_memory_bytes(max_memory_mib: usize) -> (r: usize)
    requires
        max_memory_mib * 1024 * 1024 <= usize::MAX,
    ensures
        r == max_memory_mib * 1024 * 1024,
{
    max_memory_mib * 1024 * 1024
}

} // verus!
