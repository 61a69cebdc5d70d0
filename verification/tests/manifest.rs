use pied_piper::manifest::{DependencySpec, Manifest, ManifestError, ValidatedManifest};

fn manifest(name: &str, version: &str, module: &str) -> Manifest {
    Manifest {
        name: name.to_string(),
        version: version.to_string(),
        author: None,
        description: None,
        module: module.to_string(),
        runtime: None,
        dependencies: None,
        capabilities: None,
        env: None,
    }
}

#[test]
fn test_valid_identifier() {
    assert!(Manifest::is_valid_identifier("my-module"));
    assert!(Manifest::is_valid_identifier("my_module"));
    assert!(Manifest::is_valid_identifier("MyModule123"));
    assert!(!Manifest::is_valid_identifier("-invalid"));
    assert!(!Manifest::is_valid_identifier(""));
}

#[test]
fn test_valid_semver() {
    assert!(Manifest::is_valid_semver("1.0.0"));
    assert!(Manifest::is_valid_semver("1.2"));
    assert!(!Manifest::is_valid_semver("1"));
    assert!(!Manifest::is_valid_semver("1.2.3.4"));
}

#[test]
fn manifest_validation_order() {
    assert_eq!(manifest("", "1.0.0", "m.wasm").validate(), Err(ManifestError::NameRequired));
    assert_eq!(manifest("-x", "1.0.0", "m.wasm").validate(), Err(ManifestError::InvalidName));
    assert_eq!(manifest("app", "", "m.wasm").validate(), Err(ManifestError::VersionRequired));
    assert_eq!(manifest("app", "1.0.0", "").validate(), Err(ManifestError::ModuleRequired));
    assert_eq!(
        manifest("app", "1.0.0", "../../../etc/passwd").validate(),
        Err(ManifestError::ModulePathTraversal)
    );
    assert!(manifest("app", "1.0.0", "module.wasm").validate().is_ok());
}

#[test]
fn validated_manifest_accessors() {
    let mut m = manifest("app", "1.0.0", "module.wasm");
    m.capabilities = Some(vec!["network".to_string()]);
    m.env = Some(vec![("KEY".to_string(), "value".to_string())]);
    m.dependencies = Some(vec![("lib".to_string(), DependencySpec::Simple("^1.0".to_string()))]);
    let v = ValidatedManifest::new(m, "/apps/demo".to_string()).unwrap();
    assert_eq!(v.main_module_path(), "/apps/demo/module.wasm");
    assert!(v.requires_capability("network"));
    assert!(!v.requires_capability("storage"));
    assert_eq!(v.env_vars(), vec![("KEY".to_string(), "value".to_string())]);
    assert_eq!(v.dependencies().len(), 1);
    assert!(v.runtime().is_none());
    assert_eq!(v.inner().name, "app");
    assert!(ValidatedManifest::new(manifest("", "1", "m"), ".".to_string()).is_err());
}

#[test]
fn capability_and_message() {
    assert!(Manifest::is_valid_capability("crypto"));
    assert!(!Manifest::is_valid_capability("gpu"));
    assert!(ManifestError::ModulePathTraversal.message().contains(".."));
}
