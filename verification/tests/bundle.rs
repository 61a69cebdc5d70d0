use pied_piper::bundle::{content_type_for_extension, AppBundle};

#[test]
fn test_content_type_detection() {
    assert_eq!(AppBundle::content_type_for_path("index.html"), "text/html");
    assert_eq!(AppBundle::content_type_for_path("styles.css"), "text/css");
    assert_eq!(
        AppBundle::content_type_for_path("app.js"),
        "application/javascript"
    );
    assert_eq!(
        AppBundle::content_type_for_path("data.json"),
        "application/json"
    );
    assert_eq!(
        AppBundle::content_type_for_path("module.wasm"),
        "application/wasm"
    );
}

#[test]
fn content_type_fallbacks() {
    assert_eq!(AppBundle::content_type_for_path("README"), "application/octet-stream");
    assert_eq!(AppBundle::content_type_for_path("a.xyz"), "application/octet-stream");
    assert_eq!(content_type_for_extension("woff2"), "font/woff2");
    assert_eq!(content_type_for_extension("jpeg"), "image/jpeg");
}

#[test]
fn bundle_from_parts_counts_sizes() {
    let bundle = AppBundle::from_parts(
        vec![0, 97, 115, 109],
        vec![
            ("index.html".to_string(), b"<html>".to_vec()),
            ("css/site.css".to_string(), b"body{}".to_vec()),
        ],
        "demo".to_string(),
        "1.0.0".to_string(),
        "demo.wasm".to_string(),
        42,
    );
    assert_eq!(bundle.metadata().total_size, 4 + 6 + 6);
    assert_eq!(bundle.asset_paths(), vec!["index.html".to_string(), "css/site.css".to_string()]);
    assert_eq!(bundle.get_asset("css/site.css"), Some(&b"body{}".to_vec()));
    assert_eq!(bundle.get_asset("missing"), None);
    assert_eq!(bundle.wasm_module(), &[0, 97, 115, 109]);
    assert_eq!(bundle.metadata().created_at, 42);
}

#[test]
fn skipped_assets() {
    assert!(AppBundle::skips_asset(".env"));
    assert!(AppBundle::skips_asset("app/target/debug/x"));
    assert!(AppBundle::skips_asset("web/node_modules/lib.js"));
    assert!(!AppBundle::skips_asset("web/index.html"));
}
