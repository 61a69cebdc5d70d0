use pied_piper::assoc::TextMap;
use pied_piper::package::builder::{has_module_magic, BuildError, PackageBuilder};
use pied_piper::package::crypto::{
    decrypt, derive_key_from_peer_id, encrypt, encrypt_with_nonce, generate_key, get_network_key,
    hash_sha256, verify_hash, CryptoError, KEY_SIZE,
};
use pied_piper::package::manifest::{PackageManifest, PackageMetadata, PackageType};
use pied_piper::package::{magic_bytes, open_package, seal_package, PackageError, PiperNetPackage};

#[test]
fn test_minimal_manifest() {
    let manifest = PackageManifest::minimal(
        "my-app".to_string(),
        "0.1.0".to_string(),
        "app.wasm".to_string(),
    );

    assert_eq!(manifest.metadata.name, "my-app");
    assert_eq!(manifest.metadata.version, "0.1.0");
    assert_eq!(manifest.entrypoint, "app.wasm");
    assert!(manifest.metadata.description.is_none());
    assert!(manifest.metadata.author.is_none());
}

#[test]
fn test_version_format() {
    let manifest = PackageManifest::minimal(
        "app".to_string(),
        "1.2.3".to_string(),
        "app.wasm".to_string(),
    );

    assert_eq!(manifest.metadata.version, "1.2.3");
}

#[test]
fn example_manifest_text() {
    let text = PackageManifest::example();
    assert!(text.starts_with("type = \"backend\""));
    assert!(text.contains("name = \"hello-api\""));
    assert_eq!(PackageManifest::minimal("a".to_string(), "1".to_string(), "b".to_string()).package_type, PackageType::Backend);
}

#[test]
fn test_encryption_roundtrip() {
    let key = generate_key();
    let plaintext = b"Hello, PiperNet!";

    let ciphertext = encrypt(plaintext, &key).unwrap();
    let decrypted = decrypt(&ciphertext, &key).unwrap();

    assert_eq!(plaintext, &decrypted[..]);
}

#[test]
fn test_encryption_empty_data() {
    let key = generate_key();
    let plaintext = b"";

    let ciphertext = encrypt(plaintext, &key).unwrap();
    let decrypted = decrypt(&ciphertext, &key).unwrap();

    assert_eq!(plaintext, &decrypted[..]);
}

#[test]
fn test_encryption_large_data() {
    let key = generate_key();
    let plaintext = vec![0u8; 1_000_000];

    let ciphertext = encrypt(&plaintext, &key).unwrap();
    let decrypted = decrypt(&ciphertext, &key).unwrap();

    assert_eq!(plaintext, decrypted);
}

#[test]
fn test_wrong_key_fails() {
    let key1 = generate_key();
    let key2 = generate_key();
    let plaintext = b"Secret message";

    let ciphertext = encrypt(plaintext, &key1).unwrap();
    let result = decrypt(&ciphertext, &key2);

    assert!(result.is_err());
}

#[test]
fn test_corrupted_ciphertext_fails() {
    let key = generate_key();
    let plaintext = b"test data";

    let mut ciphertext = encrypt(plaintext, &key).unwrap();

    if let Some(byte) = ciphertext.get_mut(20) {
        *byte ^= 0xFF;
    }

    let result = decrypt(&ciphertext, &key);
    assert!(result.is_err());
}

#[test]
fn test_truncated_ciphertext_fails() {
    let key = generate_key();
    let plaintext = b"test data";

    let ciphertext = encrypt(plaintext, &key).unwrap();

    let truncated = &ciphertext[..10];
    let result = decrypt(truncated, &key);
    assert!(result.is_err());
}

#[test]
fn test_derive_key_consistency() {
    let peer_id = "12D3KooWTest123";
    let key1 = derive_key_from_peer_id(peer_id);
    let key2 = derive_key_from_peer_id(peer_id);

    assert_eq!(key1, key2);
}

#[test]
fn test_different_peers_different_keys() {
    let key1 = derive_key_from_peer_id("12D3KooWPeer1");
    let key2 = derive_key_from_peer_id("12D3KooWPeer2");

    assert_ne!(key1, key2);
}

#[test]
fn test_network_key_consistency() {
    let key1 = get_network_key();
    let key2 = get_network_key();

    assert_eq!(key1, key2);
}

#[test]
fn test_network_key_length() {
    let key = get_network_key();
    assert_eq!(key.len(), KEY_SIZE);
}

#[test]
fn test_network_key_different_from_peer_keys() {
    let network_key = get_network_key();
    let peer_key = derive_key_from_peer_id("12D3KooWTest");

    assert_ne!(network_key, peer_key);
}

#[test]
fn test_hash_verification() {
    let data = b"test data";
    let hash = hash_sha256(data);

    assert!(verify_hash(data, &hash));

    let wrong_data = b"wrong data";
    assert!(!verify_hash(wrong_data, &hash));
}

#[test]
fn test_hash_deterministic() {
    let data = b"test data";
    let hash1 = hash_sha256(data);
    let hash2 = hash_sha256(data);

    assert_eq!(hash1, hash2);
}

#[test]
fn test_hash_different_for_different_data() {
    let hash1 = hash_sha256(b"data1");
    let hash2 = hash_sha256(b"data2");

    assert_ne!(hash1, hash2);
}

#[test]
fn test_generate_key_randomness() {
    let key1 = generate_key();
    let key2 = generate_key();

    assert_ne!(key1, key2);
}

#[test]
fn test_generate_key_length() {
    let key = generate_key();
    assert_eq!(key.len(), KEY_SIZE);
}

#[test]
fn sha256_of_abc_is_the_standard_digest() {
    let h = hash_sha256(b"abc");
    assert_eq!(h[0], 0xba);
    assert_eq!(h[31], 0xad);
}

#[test]
fn key_size_errors() {
    let short = [0u8; 16];
    assert_eq!(encrypt(b"x", &short), Err(CryptoError::InvalidKeySize(16)));
    assert_eq!(decrypt(b"x", &short), Err(CryptoError::InvalidKeySize(16)));
    let key = generate_key();
    assert_eq!(decrypt(&[1, 2, 3], &key), Err(CryptoError::CiphertextTooShort));
    assert_eq!(
        CryptoError::InvalidKeySize(16).message(),
        "Invalid key size: expected 32 bytes, got 16"
    );
}

#[test]
fn encryption_with_given_nonce_prefixes_it() {
    let key = [7u8; 32];
    let nonce = [1u8; 12];
    let out = encrypt_with_nonce(b"payload", &key, &nonce).unwrap();
    assert_eq!(&out[..12], &nonce);
    assert_eq!(out.len(), 12 + 7 + 16);
    assert_eq!(decrypt(&out, &key).unwrap(), b"payload".to_vec());
}

#[test]
fn sealed_package_opens_with_same_key() {
    let key = generate_key();
    let data = br#"{"manifest":"demo"}"#;
    let sealed = seal_package(data, &key).unwrap();
    assert_eq!(&sealed[0..4], b"PN\x01\x00");
    assert_eq!(magic_bytes(), b"PN\x01\x00".to_vec());
    assert_eq!(open_package(&sealed, &key).unwrap(), data.to_vec());
    let other = generate_key();
    assert!(matches!(open_package(&sealed, &other), Err(PackageError::Crypto(CryptoError::DecryptionFailed))));
    assert_eq!(open_package(b"XXXX some data", &key), Err(PackageError::BadMagic));
    assert_eq!(PackageError::BadMagic.message(), "Invalid .pn file: magic bytes mismatch");
}

#[test]
fn package_entries_decrypt() {
    let key = generate_key();
    let mut assets = TextMap::new();
    assets.insert("index.html".to_string(), encrypt(b"<html>", &key).unwrap());
    let module = encrypt(b"\0asm", &key).unwrap();
    let manifest = PackageManifest::minimal("a".to_string(), "1.0.0".to_string(), "a.wasm".to_string());
    let package = PiperNetPackage::new(manifest, module, assets, TextMap::new());
    assert_eq!(package.get_module(&key).unwrap(), b"\0asm".to_vec());
    assert_eq!(package.get_asset("index.html", &key).unwrap(), Some(b"<html>".to_vec()));
    assert_eq!(package.get_asset("none", &key).unwrap(), None);
    assert_eq!(package.get_dependency("lib", &key).unwrap(), None);
    assert_eq!(package.asset_paths(), vec!["index.html".to_string()]);
    assert!(package.dependency_names().is_empty());
    assert!(package.signature.is_empty());
}

#[test]
fn builder_requires_module_and_builds() {
    let manifest = PackageManifest::minimal("a".to_string(), "1.0.0".to_string(), "out/a.wasm".to_string());
    let mut builder = PackageBuilder::new(manifest, "/src/app".to_string());
    assert_eq!(builder.main_module_path(), "/src/app/out/a.wasm");
    assert_eq!(builder.dependency_path("lib"), "/src/app/deps/lib.wasm");
    assert_eq!(builder.asset_path("index.html"), "/src/app/index.html");
    let key = generate_key();
    assert!(matches!(builder.build(&key), Err(BuildError::ModuleNotLoaded)));
    match builder.set_module(b"not wasm".to_vec()) {
        Err(e) => assert_eq!(e.message(), "Invalid WASM module: /src/app/out/a.wasm"),
        Ok(_) => panic!("expected a refusal"),
    }
    assert!(has_module_magic(b"\0asm\x01\0\0\0"));
    builder.set_module(b"\0asm\x01\0\0\0".to_vec()).unwrap();
    builder.add_asset("index.html".to_string(), b"<html>".to_vec());
    builder.add_dependency("lib".to_string(), b"\0asm".to_vec());
    let package = builder.build(&key).unwrap();
    assert_eq!(package.get_module(&key).unwrap(), b"\0asm\x01\0\0\0".to_vec());
    assert_eq!(package.get_asset("index.html", &key).unwrap(), Some(b"<html>".to_vec()));
    assert_eq!(package.get_dependency("lib", &key).unwrap(), Some(b"\0asm".to_vec()));
    assert_eq!(package.manifest.metadata.name, "a");
    assert!(matches!(builder.build(&[0u8; 3]), Err(BuildError::Crypto(CryptoError::InvalidKeySize(3)))));
}

use pied_piper::package::commands::{
    check_package_file, extraction_files, init_manifest_text, package_file_name, package_key,
    KeyError, PackageFileError,
};

#[test]
fn commands_init_manifest_sets_type() {
    let text = init_manifest_text(Some("demo"), "FullStack");
    assert!(text.contains("type = \"fullstack\""));
    assert!(!text.contains("type = \"backend\""));
    // the given name becomes the package name
    assert!(text.contains("name = \"demo\""));
    assert!(!text.contains("name = \"hello-api\""));
    let v: toml::Value = toml::from_str(&text).unwrap();
    assert_eq!(v.get("metadata").and_then(|m| m.get("name")).and_then(|n| n.as_str()), Some("demo"));
    assert_eq!(v.get("type").and_then(|t| t.as_str()), Some("fullstack"));
    assert_eq!(init_manifest_text(None, "backend"), PackageManifest::example());
}

#[test]
fn commands_package_file_name() {
    let m = PackageManifest::minimal("app".to_string(), "1.0.0".to_string(), "a.wasm".to_string());
    assert_eq!(package_file_name(&m), "app-1.0.0.pn");
}

#[test]
fn commands_package_key() {
    assert_eq!(package_key(None), Ok(get_network_key()));
    let hex64 = "00".repeat(31) + "Ff";
    let k = package_key(Some(&hex64)).unwrap();
    assert_eq!(k[31], 0xff);
    assert_eq!(k[0], 0);
    assert_eq!(package_key(Some("abc")), Err(KeyError::InvalidHex));
    assert_eq!(package_key(Some("zz")), Err(KeyError::InvalidHex));
    assert_eq!(package_key(Some("abcd")), Err(KeyError::WrongLength));
    assert_eq!(KeyError::WrongLength.message(true), "Encryption key must be 32 bytes (64 hex characters)");
    assert_eq!(KeyError::WrongLength.message(false), "Decryption key must be 32 bytes (64 hex characters)");
    assert_eq!(KeyError::InvalidHex.message(false), "Invalid hex-encoded key");
}

#[test]
fn commands_check_package_file() {
    assert_eq!(check_package_file(b"PN"), Err(PackageFileError::TooSmall));
    assert_eq!(check_package_file(b"PK\x03\x04"), Err(PackageFileError::WrongMagic));
    assert_eq!(check_package_file(b"PN\x01\x00rest"), Ok(()));
    assert_eq!(PackageFileError::TooSmall.message(), "Invalid package: file too small");
    assert_eq!(PackageFileError::WrongMagic.message(), "Invalid package: incorrect magic bytes");
}

#[test]
fn commands_extraction_files() {
    let key = generate_key();
    let mut assets = TextMap::new();
    assets.insert("index.html".to_string(), encrypt(b"<h1>", &key).unwrap());
    let mut deps = TextMap::new();
    deps.insert("util".to_string(), encrypt(b"\0asm", &key).unwrap());
    let manifest = PackageManifest::minimal("a".to_string(), "1.0.0".to_string(), "a.wasm".to_string());
    let pkg = PiperNetPackage::new(manifest, encrypt(b"module", &key).unwrap(), assets, deps);
    let files = extraction_files(&pkg, &key).unwrap();
    assert_eq!(
        files,
        vec![
            ("module.wasm".to_string(), b"module".to_vec()),
            ("index.html".to_string(), b"<h1>".to_vec()),
            ("dependencies/util.wasm".to_string(), b"\0asm".to_vec()),
        ]
    );
    let other = generate_key();
    assert_eq!(extraction_files(&pkg, &other), Err(CryptoError::DecryptionFailed));
    assert_eq!(extraction_files(&pkg, &key[..5]), Err(CryptoError::InvalidKeySize(5)));
}

#[test]
fn test_builder_creation() {
    let manifest = PackageManifest {
        metadata: PackageMetadata {
            name: "test".to_string(),
            version: "1.0.0".to_string(),
            description: None,
            author: None,
            license: None,
            homepage: None,
            repository: None,
        },
        package_type: PackageType::Backend,
        entrypoint: "module.wasm".to_string(),
        assets: vec![],
        dependencies: pied_piper::assoc::StringMap::new(),
    };

    let builder = PackageBuilder::new(manifest, "/tmp".to_string());
    assert_eq!(builder.manifest().metadata.name, "test");
}
