use pied_piper::gateway::handler::{
    asset_headers, entry_matches, error_page, extract_from_tar, find_in_paths, guess_content_type,
    is_tar_archive, looks_like_cid,
};
use pied_piper::gateway::io::{WasmRequest, WasmResponse};
use pied_piper::gateway::router::{Router, RouteResult};
use pied_piper::gateway::routing::{
    CIDValidator, ExtensionValidator, MethodValidator, PathSanitizer, RoutingError,
};
use pied_piper::gateway::server::{info_reply, readiness_reply, GatewayConfig};
use pied_piper::gateway::tls::{cert_dir_under, default_cert_dir, generate_self_signed_cert, TlsConfig, TlsError};

#[test]
fn test_wasm_response_creation() {
    let resp = WasmResponse::ok("success".to_string());
    assert_eq!(resp.status, 200);
    assert_eq!(resp.body, "success");

    let error = WasmResponse::error(500, "failed".to_string());
    assert_eq!(error.status, 500);
    assert!(error.body.contains("failed"));
}

#[test]
fn test_binary_request() {
    let binary_data = vec![0u8, 1, 2, 3, 255, 254, 253];
    let req = WasmRequest::new_binary(
        "POST".to_string(),
        "/api/upload".to_string(),
        binary_data.clone(),
    );

    assert_eq!(req.body_is_base64, true);
    assert_eq!(req.content_type, Some("application/octet-stream".to_string()));

    let decoded = req.decode_body().unwrap();
    assert_eq!(decoded, binary_data);
}

#[test]
fn test_binary_response() {
    let binary_data = vec![255u8, 254, 253, 0, 1, 2];
    let resp = WasmResponse::ok_binary(binary_data.clone(), None);

    assert_eq!(resp.status, 200);
    assert_eq!(resp.body_is_base64, true);
    assert_eq!(
        resp.content_type,
        Some("application/octet-stream".to_string())
    );

    let decoded = resp.body_bytes().unwrap();
    assert_eq!(decoded, binary_data);
}

#[test]
fn test_request_query_and_headers() {
    let req = WasmRequest::new("GET".to_string(), "/test".to_string(), String::new())
        .with_query("param1".to_string(), "value1".to_string())
        .with_query("param2".to_string(), "value2".to_string())
        .with_header("Authorization".to_string(), "Bearer token".to_string())
        .with_content_type("application/json".to_string());

    assert_eq!(req.query.get("param1").unwrap(), "value1");
    assert_eq!(req.query.get("param2").unwrap(), "value2");
    assert_eq!(
        req.headers.get("Authorization").unwrap(),
        "Bearer token"
    );
    assert_eq!(req.content_type, Some("application/json".to_string()));
}

#[test]
fn test_response_with_custom_headers() {
    let resp = WasmResponse::ok("data".to_string())
        .with_header("X-Custom".to_string(), "value".to_string())
        .with_header("Cache-Control".to_string(), "no-cache".to_string());

    assert_eq!(resp.headers.get("X-Custom").unwrap(), "value");
    assert_eq!(resp.headers.get("Cache-Control").unwrap(), "no-cache");
}

#[test]
fn error_response_body_is_json() {
    let error = WasmResponse::error(500, "failed".to_string());
    assert_eq!(error.body, r#"{"error":true,"message":"failed","status":500}"#);
    let nf = WasmResponse::not_found("say \"hi\"".to_string());
    assert_eq!(nf.status, 404);
    assert_eq!(nf.body, r#"{"error":true,"message":"say \"hi\"","status":404}"#);
    assert_eq!(nf.content_type, Some("application/json".to_string()));
}

#[test]
fn plain_body_decodes_to_its_bytes() {
    let req = WasmRequest::new("POST".to_string(), "/x".to_string(), "héllo".to_string());
    assert_eq!(req.decode_body().unwrap(), "héllo".as_bytes().to_vec());
    let resp = WasmResponse::default();
    assert_eq!(resp.status, 200);
    assert_eq!(resp.body_bytes().unwrap(), Vec::<u8>::new());
}

#[test]
fn ok_binary_keeps_given_content_type_and_encodes() {
    let resp = WasmResponse::ok_binary(b"abc".to_vec(), Some("image/png".to_string()));
    assert_eq!(resp.content_type, Some("image/png".to_string()));
    assert_eq!(resp.body, "YWJj");
}

#[test]
fn malformed_base64_body_is_an_error() {
    let mut req = WasmRequest::new("POST".to_string(), "/x".to_string(), "!!!".to_string());
    req.body_is_base64 = true;
    assert!(req.decode_body().is_err());
}

#[test]
fn header_replaced_by_later_value() {
    let req = WasmRequest::new("GET".to_string(), "/".to_string(), String::new())
        .with_header("A".to_string(), "1".to_string())
        .with_header("A".to_string(), "2".to_string());
    assert_eq!(req.headers.get("A").unwrap(), "2");
    assert_eq!(req.headers.len(), 1);
    assert!(!req.headers.contains_key("B"));
}

#[test]
fn test_cid_validation() {
    assert!(CIDValidator::validate("bafybeigdyrzt5sfp7udm7hu76uh7y26nf3efuylqabf3oclgtqy55fbzdi").is_ok());
    assert!(CIDValidator::validate("brecwchwpyajjy7ysqvgcvviwvzh6ioi2gum6pyjwyeiwnpnd54ka").is_ok());

    assert!(CIDValidator::validate("abc123").is_err());
    assert!(CIDValidator::validate("bafybeig").is_err());
    assert!(CIDValidator::validate("aafybeigdyrzt5sfp7udm7hu76uh7y26nf3efuylqabf3oclgtqy55fbzdi").is_err());
    assert!(CIDValidator::validate("bafybeig_invalid_chars!@#").is_err());
}

#[test]
fn cid_errors_name_their_reason() {
    let short = CIDValidator::validate("abc123").unwrap_err();
    assert_eq!(short.message(), "Invalid CID: CID too short (minimum 30 characters)");
    assert_eq!(short.status_code(), 400);
    let long = "b".repeat(101);
    assert_eq!(
        CIDValidator::validate(&long).unwrap_err().message(),
        "Invalid CID: CID too long (maximum 100 characters)"
    );
    let bad = CIDValidator::validate("bafybeigdyrzt5sfp7udm7hu76uh7y26nf3efuylqAbf3oclgtqy55fbzdi").unwrap_err();
    assert_eq!(
        bad.message(),
        "Invalid CID: Invalid character 'A' in CID (must be lowercase a-z or 2-7)"
    );
    assert!(CIDValidator::looks_valid("bafybeigdyrzt5sfp7udm7hu76uh7y26nf3efuylqabf3oclgtqy55fbzdi"));
    assert!(!CIDValidator::looks_valid("bafybeig"));
}

#[test]
fn test_path_normalization() {
    assert_eq!(PathSanitizer::normalize("/app.js").unwrap(), "app.js");
    assert_eq!(PathSanitizer::normalize("styles.css").unwrap(), "styles.css");
    assert_eq!(PathSanitizer::normalize("/api/users").unwrap(), "api/users");

    assert_eq!(PathSanitizer::normalize("//api///users//").unwrap(), "api/users");

    assert!(PathSanitizer::normalize("/../etc/passwd").is_err());

    assert_eq!(PathSanitizer::normalize("/etc/shadow").unwrap(), "etc/shadow");

    assert!(PathSanitizer::normalize("path/with/null\0byte").is_err());
}

#[test]
fn test_url_encoding() {
    assert!(PathSanitizer::normalize("/hello%20world.txt").is_err());

    assert_eq!(PathSanitizer::normalize("/api%2Fusers").unwrap(), "api/users");
}

#[test]
fn test_path_depth_limit() {
    let deep_path = "/a/b/c/d/e/f/g/h/i/j/k/l/m/n/o/p/q/r/s/t/u/v/w/x/y/z";
    assert!(PathSanitizer::normalize(deep_path).is_err());

    let normal_path = "/a/b/c/d/e";
    assert!(PathSanitizer::normalize(normal_path).is_ok());
}

#[test]
fn test_hidden_files() {
    assert!(PathSanitizer::normalize("/.htaccess").is_err());
    assert!(PathSanitizer::normalize("/.env").is_err());
    assert!(PathSanitizer::normalize("/.git/config").is_err());
    assert!(PathSanitizer::normalize("/normal.txt").is_ok());
}

#[test]
fn normalization_errors_name_their_reason() {
    let e = PathSanitizer::normalize("a/x/etc/y").unwrap_err();
    assert_eq!(e.message(), "Invalid path: Suspicious pattern detected: /etc/");
    let deep = PathSanitizer::normalize("a/b/c/d/e/f/g/h/i/j/k").unwrap_err();
    assert_eq!(deep.message(), "Invalid path: Path depth 11 exceeds maximum of 10");
    let hidden = PathSanitizer::normalize("/.env").unwrap_err();
    assert_eq!(hidden.message(), "Invalid path: Access to hidden files not allowed");
    let space = PathSanitizer::normalize("/a b").unwrap_err();
    assert_eq!(space.message(), "Invalid path: Invalid character ' ' in path");
    let dots = PathSanitizer::normalize("/a/../b").unwrap_err();
    assert_eq!(dots.message(), "Invalid path: Directory traversal not allowed");
    let nul = PathSanitizer::normalize("a\0").unwrap_err();
    assert_eq!(nul.message(), "Invalid path: Path contains null byte");
    assert_eq!(PathSanitizer::normalize("./a/./b").unwrap(), "a/b");
}

#[test]
fn normalize_decoded_reports_encoding_error() {
    let r = PathSanitizer::normalize_decoded("/x", Err("bad utf-8".to_string()));
    match r {
        Err(RoutingError::InvalidEncoding(m)) => assert_eq!(m, "Invalid URL encoding: bad utf-8"),
        _ => panic!("expected an encoding error"),
    }
    assert_eq!(PathSanitizer::normalize_decoded("/x", Ok("/y/z".to_string())).unwrap(), "y/z");
}

#[test]
fn sanitize_keeps_safe_characters() {
    assert_eq!(PathSanitizer::sanitize("/api/user<script>"), "/api/userscript");
    assert_eq!(PathSanitizer::sanitize("a b;c"), "abc");
}

#[test]
fn test_method_validation() {
    assert!(MethodValidator::validate_cid_route("GET", false).is_ok());
    assert!(MethodValidator::validate_cid_route("GET", true).is_ok());
    assert!(MethodValidator::validate_cid_route("POST", true).is_ok());

    assert!(MethodValidator::validate_cid_route("POST", false).is_err());
    assert!(MethodValidator::validate_cid_route("DELETE", false).is_err());
}

#[test]
fn method_errors_and_lists() {
    let e = MethodValidator::validate_cid_route("POST", false).unwrap_err();
    assert_eq!(e.status_code(), 405);
    assert_eq!(e.message(), "Method not allowed: Method POST not allowed for this route type");
    assert!(MethodValidator::validate_cid_route("OPTIONS", false).is_ok());
    assert!(MethodValidator::validate_app_route("PATCH").is_ok());
    assert!(MethodValidator::validate_app_route("TRACE").is_err());
    assert_eq!(MethodValidator::allowed_methods_cid(false).len(), 3);
    assert_eq!(MethodValidator::allowed_methods_cid(true).len(), 7);
    assert_eq!(MethodValidator::allowed_methods_app().len(), 7);
}

#[test]
fn routing_test_extension_validation() {
    assert!(ExtensionValidator::is_allowed("/app.js"));
    assert!(ExtensionValidator::is_allowed("/style.css"));
    assert!(ExtensionValidator::is_allowed("/module.wasm"));
    assert!(ExtensionValidator::is_allowed("/api"));

    assert!(ExtensionValidator::is_suspicious("/script.php"));
    assert!(ExtensionValidator::is_suspicious("/file.exe"));
    assert!(ExtensionValidator::is_suspicious("/shell.sh"));
    assert!(!ExtensionValidator::is_suspicious("/app.js"));
}

#[test]
fn extension_is_lowercased() {
    assert_eq!(ExtensionValidator::get_extension("/A.HTML"), Some("html".to_string()));
    assert_eq!(ExtensionValidator::get_extension("/noext"), None);
    assert!(ExtensionValidator::is_allowed("/A.HTML"));
    assert!(!ExtensionValidator::is_allowed("/a.exe"));
}

fn handler_a() -> u32 {
    1
}

#[test]
fn router_matches_exact_paths() {
    let mut router: Router<fn() -> u32> = Router::new();
    router.route("/a", handler_a);
    assert!(router.match_route("/a").is_some());
    assert!(router.match_route("/b").is_none());
    let params = Router::<u8>::parse_params("/users/:id/posts/:post", "/users/42/posts/7");
    assert_eq!(params.get("id").unwrap(), "42");
    assert_eq!(params.get("post").unwrap(), "7");
    assert_eq!(params.len(), 2);
    let short = Router::<u8>::parse_params("/users/:id/:extra", "/users/42");
    assert_eq!(short.len(), 1);
}

#[test]
fn router_parses_query() {
    let q = Router::<u8>::parse_query("a=1&b=hello%20world&c&d=x=y");
    assert_eq!(q.get("a").unwrap(), "1");
    assert_eq!(q.get("b").unwrap(), "hello world");
    assert!(q.get("c").is_none());
    assert_eq!(q.get("d").unwrap(), "x=y");
    let pairs = Router::<u8>::query_pairs("k=v&k=w");
    assert_eq!(pairs, vec![("k".to_string(), "v".to_string()), ("k".to_string(), "w".to_string())]);
    assert_eq!(Router::<u8>::parse_query("k=v&k=w").get("k").unwrap(), "w");
    let r = RouteResult::Content(vec![1], "text/plain".to_string());
    assert!(matches!(r, RouteResult::Content(_, _)));
}

#[test]
fn test_default_cert_dir() {
    let dir = default_cert_dir();
    assert!(dir.contains(".pied-piper"));
    assert!(dir.contains("certs"));
}

#[test]
fn cert_dir_without_home_is_relative() {
    assert_eq!(cert_dir_under(None), "./.pied-piper/certs");
    assert_eq!(cert_dir_under(Some("/home/u".to_string())), "/home/u/.pied-piper/certs");
}

#[test]
fn test_tls_config_validation() {
    let config = TlsConfig::new(
        "/nonexistent/cert.pem".to_string(),
        "/nonexistent/key.pem".to_string(),
    );
    let cert_exists = std::path::Path::new(&config.cert_path).exists();
    let key_exists = std::path::Path::new(&config.key_path).exists();
    assert!(config.validate(cert_exists, key_exists).is_err());
}

#[test]
fn tls_validation_order_and_generation() {
    let config = TlsConfig::new("c.pem".to_string(), "k.pem".to_string());
    assert!(config.enabled);
    let e = config.validate(false, false).unwrap_err();
    assert_eq!(e.message(), "Certificate file not found: \"c.pem\"");
    let e = config.validate(true, false).unwrap_err();
    assert_eq!(e.message(), "Private key file not found: \"k.pem\"");
    assert!(config.validate(true, true).is_ok());
    assert!(matches!(generate_self_signed_cert("x", "c", "k"), Err(TlsError::GenerationNotImplemented)));
}

#[test]
fn gateway_config_default() {
    let c = GatewayConfig::default();
    assert_eq!(c.port, 3000);
    assert_eq!(c.https_port, None);
    assert_eq!(c.index_file, "index.html");
    assert_eq!(c.request_timeout_secs, 30);
}

#[test]
fn handler_content_types_and_cids() {
    assert_eq!(guess_content_type("/a/index.html"), "text/html");
    assert_eq!(guess_content_type("x.mjs"), "application/javascript");
    assert_eq!(guess_content_type("x.md"), "text/markdown");
    assert_eq!(guess_content_type("x.bin"), "application/octet-stream");
    assert!(looks_like_cid("bafybeigdyrzt5sfp7udm7hu76uh7y26nf3efuylqabf3oclgtqy55fbzdi"));
    assert!(!looks_like_cid("my-app"));
}

#[test]
fn tar_detection_and_entry_matching() {
    let mut bytes = vec![0u8; 300];
    assert!(!is_tar_archive(&bytes));
    bytes[257..262].copy_from_slice(b"ustar");
    assert!(is_tar_archive(&bytes));
    assert!(!is_tar_archive(&bytes[..200]));
    assert!(entry_matches("app.js", "/app.js"));
    assert!(entry_matches("index.html", "/"));
    assert!(entry_matches("docs/index.html", "/docs/"));
    assert!(!entry_matches("other.js", "/app.js"));
    let paths = vec!["a.txt".to_string(), "index.html".to_string(), "index.html".to_string()];
    assert_eq!(find_in_paths(&paths, "/"), Some(1));
    assert_eq!(find_in_paths(&paths, "a.txt"), Some(0));
    assert_eq!(find_in_paths(&paths, "/b.txt"), None);
}

#[test]
fn tar_archive_lookup() {
    let mut builder_bytes = Vec::new();
    {
        let mut builder = tar::Builder::new(&mut builder_bytes);
        let data = b"hello";
        let mut header = tar::Header::new_gnu();
        header.set_size(data.len() as u64);
        header.set_cksum();
        builder.append_data(&mut header, "site/hello.txt", &data[..]).unwrap();
        builder.finish().unwrap();
    }
    assert!(is_tar_archive(&builder_bytes));
    assert_eq!(extract_from_tar(&builder_bytes, "/site/hello.txt").unwrap(), Some(b"hello".to_vec()));
    assert_eq!(extract_from_tar(&builder_bytes, "/missing").unwrap(), None);
}

#[test]
fn asset_headers_and_error_page() {
    let h = asset_headers("text/css", b"x");
    assert_eq!(h[0], ("content-type".to_string(), "text/css".to_string()));
    assert_eq!(h[1].1, "public, max-age=31536000, immutable");
    assert_eq!(h.len(), 3);
    let html = asset_headers("text/html", b"x");
    assert_eq!(html.len(), 7);
    assert!(html[6].1.starts_with('"') && html[6].1.ends_with('"'));
    let page = error_page(404, "gone");
    assert!(page.contains("<title>404 - Error</title>"));
    assert!(page.contains("<p>gone</p>"));
}

#[test]
fn readiness_follows_the_peer_count() {
    let ready = readiness_reply(3);
    assert_eq!(ready.status, 200);
    assert_eq!(ready.content_type, "application/json");
    assert!(ready.headers.is_empty());
    assert_eq!(
        String::from_utf8(ready.body.clone()).unwrap(),
        "{\"message\":\"Gateway is ready to accept traffic\",\"peer_count\":3,\"ready\":true}"
    );
    let v: serde_json::Value = serde_json::from_slice(&ready.body).unwrap();
    assert_eq!(v.get("peer_count").and_then(|x| x.as_u64()), Some(3));
    assert_eq!(v.get("ready").and_then(|x| x.as_bool()), Some(true));

    let not_ready = readiness_reply(0);
    assert_eq!(not_ready.status, 503);
    let v: serde_json::Value = serde_json::from_slice(&not_ready.body).unwrap();
    assert_eq!(v.get("ready").and_then(|x| x.as_bool()), Some(false));
    assert_eq!(v.get("peer_count").and_then(|x| x.as_u64()), Some(0));
    assert_eq!(
        v.get("message").and_then(|x| x.as_str()),
        Some("Gateway is not ready - no peer connections")
    );
}

#[test]
fn info_names_gateway_peer_and_version() {
    let r = info_reply("12D3KooWabc", "0.1.0");
    assert_eq!(r.status, 200);
    assert_eq!(r.content_type, "application/json");
    assert_eq!(
        String::from_utf8(r.body.clone()).unwrap(),
        "{\"gateway\":\"Pied Piper HTTP Gateway\",\"peer_id\":\"12D3KooWabc\",\"status\":\"online\",\"version\":\"0.1.0\"}"
    );
    let v: serde_json::Value = serde_json::from_slice(&r.body).unwrap();
    assert_eq!(v.get("status").and_then(|x| x.as_str()), Some("online"));
}

#[test]
fn extension_comes_from_the_last_segment() {
    assert_eq!(ExtensionValidator::get_extension("/Style.CSS"), Some("css".to_string()));
    assert_eq!(ExtensionValidator::get_extension("/api"), None);
    assert_eq!(ExtensionValidator::get_extension("/api.v1/users"), None);
    assert_eq!(ExtensionValidator::get_extension("/v1.2/app.JS"), Some("js".to_string()));
    assert_eq!(ExtensionValidator::get_extension("app.wasm"), Some("wasm".to_string()));
    assert!(ExtensionValidator::is_allowed("/api.v1/users"));
    assert!(!ExtensionValidator::is_suspicious("/cgi.php/run"));
}

#[test]
fn suspicious_paths_are_never_allowed() {
    for p in ["/script.php", "/file.exe", "/shell.sh", "/a/b.PS1", "/lib.so"] {
        assert!(ExtensionValidator::is_suspicious(p));
        assert!(!ExtensionValidator::is_allowed(p));
    }
    for p in ["/app.js", "/index.html", "/pkg.tar", "/img.JPG"] {
        assert!(ExtensionValidator::is_allowed(p));
        assert!(!ExtensionValidator::is_suspicious(p));
    }
}

#[test]
fn tar_lookup_stops_at_the_first_match() {
    let mut bytes = Vec::new();
    {
        let mut builder = tar::Builder::new(&mut bytes);
        for (name, data) in [("first.txt", &b"one"[..]), ("second.txt", &b"two"[..])] {
            let mut header = tar::Header::new_gnu();
            header.set_size(data.len() as u64);
            header.set_cksum();
            builder.append_data(&mut header, name, data).unwrap();
        }
        builder.finish().unwrap();
    }
    // break the checksum of the second entry's header (at offset 1024)
    bytes[1024 + 148] ^= 0x01;
    assert_eq!(extract_from_tar(&bytes, "/first.txt").unwrap(), Some(b"one".to_vec()));
    assert!(extract_from_tar(&bytes, "/second.txt").is_err());
    assert!(extract_from_tar(&bytes, "/missing").is_err());
}
