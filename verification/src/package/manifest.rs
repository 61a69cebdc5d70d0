//! The package manifest (pn.toml).

use vstd::prelude::*;
use crate::assoc::StringMap;
use crate::text::lit;

verus! {

/// A package manifest.
#[derive(Debug, Clone)]
pub struct PackageManifest {
    /// Package metadata
    pub metadata: PackageMetadata,
    /// Type of package
    pub package_type: PackageType,
    /// Main entrypoint (module path)
    pub entrypoint: String,
    /// Asset file paths
    pub assets: Vec<String>,
    /// Dependencies (name to version requirement)
    pub dependencies: StringMap,
}

/// The metadata section of a manifest.
#[derive(Debug, Clone)]
pub struct PackageMetadata {
    /// Package name (e.g. "hello-api")
    pub name: String,
    /// Semantic version (e.g. "1.0.0")
    pub version: String,
    /// Short description
    pub description: Option<String>,
    /// Author name/email
    pub author: Option<String>,
    /// License identifier (e.g. "MIT")
    pub license: Option<String>,
    /// Homepage URL
    pub homepage: Option<String>,
    /// Repository URL
    pub repository: Option<String>,
}

/// The kind of a package.
#[derive(Debug, Clone, Copy, PartialEq, Eq, Structural)]
pub enum PackageType {
    /// Backend API (module only)
    Backend,
    /// Frontend web app (HTML/CSS/JS and an optional module)
    Frontend,
    /// Backend module and frontend assets
    FullStack,
    /// Reusable component
    Library,
}

impl PackageManifest {
    /// A backend manifest with only the required fields.
    pub fn minimal(name: String, version: String, entrypoint: String) -> (r: Self)
        ensures
            r.metadata.name == name,
            r.metadata.version == version,
            r.entrypoint == entrypoint,
            r.metadata.description is None,
            r.metadata.author is None,
            r.metadata.license is None,
            r.metadata.homepage is None,
            r.metadata.repository is None,
            r.package_type == PackageType::Backend,
            r.assets@.len() == 0,
            r.dependencies@ == Map::<Seq<char>, Seq<char>>::empty(),
    {
        PackageManifest {
            metadata: PackageMetadata {
                name,
                version,
                description: None,
                author: None,
                license: None,
                homepage: None,
                repository: None,
            },
            package_type: PackageType::Backend,
            entrypoint,
            assets: Vec::new(),
            dependencies: StringMap::new(),
        }
    }

    /// An example pn.toml, for documentation.
    pub fn example() -> (r: String)
        ensures
            r@ == example_manifest_text(),
    {
        lit(
            "type = \"backend\"\nentrypoint = \"target/wasm32-wasip1/release/hello-api.wasm\"\n\n[metadata]\nname = \"hello-api\"\nversion = \"1.0.0\"\ndescription = \"Pipey's Hello World API\"\nauthor = \"Pipey <pipey@piper.net>\"\nlicense = \"MIT\"\nhomepage = \"https://pipey.net/hello-api\"\nrepository = \"https://pipergit.com/pipey/hello-api\"\n\n[dependencies]\n",
        )
    }
}

/// The text of the example manifest.
pub open spec fn example_manifest_text() -> Seq<char> {
    "type = \"backend\"\nentrypoint = \"target/wasm32-wasip1/release/hello-api.wasm\"\n\n[metadata]\nname = \"hello-api\"\nversion = \"1.0.0\"\ndescription = \"Pipey's Hello World API\"\nauthor = \"Pipey <pipey@piper.net>\"\nlicense = \"MIT\"\nhomepage = \"https://pipey.net/hello-api\"\nrepository = \"https://pipergit.com/pipey/hello-api\"\n\n[dependencies]\n"@
}

} // verus!
