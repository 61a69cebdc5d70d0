use pied_piper::gateway::api::{
    api_path, api_request, component_failure, component_reply, core_reply, execution_failure,
    handler_export, is_component, is_wasm, no_handler, reply_from_output, serve_mode,
    status_code, ServeMode,
};
use pied_piper::gateway::io::WasmResponse;
use pied_piper::gateway::websocket::{
    app_not_found, binary_message, builtin_reply, component_ws_reply, module_not_found,
    name_resolution_failed, no_ws_handler, processing_failed, session_step, welcome, WsFrame,
    WsMessage, WsStep,
};

fn obj(pairs: &[(&str, &str)]) -> String {
    let mut m = serde_json::Map::new();
    for (k, v) in pairs {
        m.insert(k.to_string(), serde_json::Value::String(v.to_string()));
    }
    serde_json::Value::Object(m).to_string()
}

#[test]
fn api_detects_wasm_binaries() {
    let component = [0x00u8, 0x61, 0x73, 0x6d, 0x0d, 0x00, 0x01, 0x00];
    let core = [0x00u8, 0x61, 0x73, 0x6d, 0x01, 0x00, 0x00, 0x00];
    assert!(is_wasm(&component));
    assert!(is_wasm(&core));
    assert!(is_component(&component));
    assert!(!is_component(&core));
    // five bytes are enough to be served as an API, not to be a component
    assert!(is_wasm(&component[..5]));
    assert!(!is_component(&component[..5]));
    assert!(!is_wasm(b"<html>"));
    assert!(!is_wasm(&[0x00u8, 0x61, 0x73, 0x6d, 0x02]));
}

#[test]
fn api_serve_modes() {
    let wasm = [0x00u8, 0x61, 0x73, 0x6d, 0x01];
    assert_eq!(serve_mode(&wasm, "style.css", "index.html"), ServeMode::Api);
    assert_eq!(serve_mode(b"tar", "", "index.html"), ServeMode::Frontend);
    assert_eq!(serve_mode(b"tar", "about.html", "index.html"), ServeMode::Frontend);
    assert_eq!(serve_mode(b"tar", "home.htm", "home.htm"), ServeMode::Frontend);
    assert_eq!(serve_mode(b"tar", "app.js", "index.html"), ServeMode::StaticFile);
}

#[test]
fn api_path_gets_leading_slash() {
    assert_eq!(api_path("users/1"), "/users/1");
    assert_eq!(api_path("/users/1"), "/users/1");
    assert_eq!(api_path(""), "/");
}

#[test]
fn api_request_carries_headers_and_query() {
    let headers = vec![
        ("content-type".to_string(), b"application/json".to_vec()),
        ("x-token".to_string(), b"abc".to_vec()),
        ("x-bad".to_string(), vec![0xffu8, 0x01]),
    ];
    let req = api_request("POST", "items", b"{\"a\":1}", &headers, Some("q=hello%20world&n=1&flag&bad=%ZZ"));
    assert_eq!(req.method, "POST");
    assert_eq!(req.path, "/items");
    assert_eq!(req.body, "{\"a\":1}");
    assert_eq!(req.content_type.as_deref(), Some("application/json"));
    assert_eq!(req.headers.get("x-token").map(|s| s.as_str()), Some("abc"));
    assert!(req.headers.get("x-bad").is_none());
    assert_eq!(req.headers.len(), 2);
    assert_eq!(req.query.get("q").map(|s| s.as_str()), Some("hello world"));
    assert_eq!(req.query.get("n").map(|s| s.as_str()), Some("1"));
    assert!(req.query.get("flag").is_none());
    assert!(!req.body_is_base64);
}

#[test]
fn api_request_without_query() {
    let req = api_request("GET", "/", b"", &vec![], None);
    assert_eq!(req.query.len(), 0);
    assert!(req.content_type.is_none());
}

#[test]
fn api_lossy_text_replaces_bad_bytes() {
    assert_eq!(pied_piper::wasm::host::read_url(b"abc", 0, 3), Ok("abc".to_string()));
    assert_eq!(pied_piper::wasm::host::read_url(&[0x61u8, 0xff], 0, 2), Ok("a\u{fffd}".to_string()));
}

#[test]
fn api_status_codes() {
    assert_eq!(status_code(404), 404);
    assert_eq!(status_code(999), 999);
    assert_eq!(status_code(99), 200);
    assert_eq!(status_code(1000), 200);
}

#[test]
fn api_handler_exports() {
    assert_eq!(handler_export(true, true, true), Some("_handle_request"));
    assert_eq!(handler_export(false, true, true), Some("handle_request"));
    assert_eq!(handler_export(false, false, true), Some("_start"));
    assert_eq!(handler_export(false, false, false), None);
}

#[test]
fn api_failure_bodies_match_serde_json() {
    let r = component_failure(&vec!["outer".to_string(), "inner".to_string()], "/p", "bcid");
    assert_eq!(r.status, 500);
    assert_eq!(r.content_type, "application/json");
    let expect = obj(&[
        ("error", "Component execution failed"),
        ("message", "outer\n  Caused by: inner"),
        ("path", "/p"),
        ("cid", "bcid"),
    ]);
    assert_eq!(String::from_utf8(r.body).unwrap(), expect);

    let r = execution_failure(&vec!["a".to_string(), "b\"c".to_string()], "/", "x");
    let expect = obj(&[("error", "Execution failed"), ("message", "a -> b\"c"), ("path", "/"), ("cid", "x")]);
    assert_eq!(String::from_utf8(r.body).unwrap(), expect);

    let r = no_handler("/api", "c1");
    assert_eq!(r.status, 501);
    let expect = obj(&[
        ("error", "No API handler found"),
        ("message", "Module must export 'handle_request', '_handle_request', or '_start' function"),
        ("path", "/api"),
        ("cid", "c1"),
    ]);
    assert_eq!(String::from_utf8(r.body).unwrap(), expect);
}

#[test]
fn api_component_reply_cases() {
    let r = component_reply(b"", "/p", "c");
    assert_eq!(r.status, 200);
    let expect = obj(&[
        ("status", "success"),
        ("message", "Component executed but produced no output"),
        ("path", "/p"),
        ("cid", "c"),
    ]);
    assert_eq!(String::from_utf8(r.body).unwrap(), expect);

    let r = component_reply(&[0xffu8, 0xfe], "/p", "c");
    assert_eq!(r.status, 500);
    let err = String::from_utf8(vec![0xffu8, 0xfe]).unwrap_err().to_string();
    let expect = obj(&[
        ("error", "Invalid UTF-8 in component output"),
        ("message", &err),
        ("path", "/p"),
        ("cid", "c"),
    ]);
    assert_eq!(String::from_utf8(r.body).unwrap(), expect);

    let r = component_reply(b"{\"status\":201,\"body\":\"made\",\"content_type\":\"text/plain\"}", "/", "c");
    assert_eq!(r.status, 201);
    assert_eq!(r.content_type, "text/plain");
    assert_eq!(r.body, b"made".to_vec());

    let out = "{\"status\":42}";
    let r = component_reply(out.as_bytes(), "/", "c");
    assert_eq!(r.status, 200);
    assert_eq!(r.content_type, "application/json");
    assert_eq!(r.body, out.as_bytes().to_vec());

    let out = "[1,2]";
    let r = component_reply(out.as_bytes(), "/", "c");
    assert_eq!(r.status, 200);
    assert_eq!(r.content_type, "application/json");
    assert_eq!(r.body, out.as_bytes().to_vec());

    let r = component_reply(b"plain words", "/", "c");
    assert_eq!(r.status, 200);
    assert_eq!(r.content_type, "text/plain");
    assert_eq!(r.body, b"plain words".to_vec());
}

#[test]
fn api_reply_from_output_defaults() {
    let r = reply_from_output("raw", Some((Some(404), None, None)));
    assert_eq!(r.status, 404);
    assert_eq!(r.content_type, "application/json");
    assert_eq!(r.body, b"raw".to_vec());
    // 65536 + 201 truncates to 201
    let r = reply_from_output("raw", Some((Some(65737), Some("b".to_string()), None)));
    assert_eq!(r.status, 201);
    assert_eq!(r.body, b"b".to_vec());
}

#[test]
fn api_core_reply_cases() {
    let r = core_reply(b"", None, "/p", "c");
    let expect = obj(&[
        ("status", "success"),
        ("message", "Handler executed but produced no output"),
        ("path", "/p"),
        ("cid", "c"),
        ("note", "Module should write WasmResponse JSON to stdout"),
    ]);
    assert_eq!(String::from_utf8(r.body).unwrap(), expect);

    let resp = WasmResponse::ok("hi".to_string()).with_header("x-a".to_string(), "1".to_string());
    let r = core_reply(b"{...}", Some(resp), "/", "c");
    assert_eq!(r.status, 200);
    assert_eq!(r.content_type, "application/json");
    assert_eq!(r.headers, vec![("x-a".to_string(), "1".to_string())]);
    assert_eq!(r.body, b"hi".to_vec());

    let r = core_reply(&[0x68u8, 0xff], None, "/", "c");
    assert_eq!(r.content_type, "text/plain");
    assert_eq!(r.body, "h\u{fffd}".as_bytes().to_vec());
}

fn ws(t: &str, id: Option<&str>, data: &str, metadata: Option<&str>) -> WsMessage {
    WsMessage {
        msg_type: t.to_string(),
        id: id.map(|s| s.to_string()),
        data: data.to_string(),
        metadata: metadata.map(|s| s.to_string()),
    }
}

#[test]
fn ws_message_json_layout() {
    assert_eq!(ws("event", None, "{}", None).to_json(), "{\"type\":\"event\",\"id\":null,\"data\":{}}");
    assert_eq!(
        ws("event", Some("7"), "[1]", Some("{\"m\":true}")).to_json(),
        "{\"type\":\"event\",\"id\":\"7\",\"data\":[1],\"metadata\":{\"m\":true}}"
    );
}

#[test]
fn ws_builtin_messages() {
    assert_eq!(
        welcome("bcid").to_json(),
        "{\"type\":\"connected\",\"id\":null,\"data\":{\"cid\":\"bcid\",\"message\":\"WebSocket connected\"}}"
    );
    assert_eq!(
        module_not_found("x").to_json(),
        "{\"type\":\"error\",\"id\":null,\"data\":{\"cid\":\"x\",\"error\":\"Module not found\"}}"
    );
    assert!(app_not_found("app").to_json().contains("\"error\":\"Application not found\",\"name\":\"app\""));
    assert!(name_resolution_failed("boom").to_json().contains("\"message\":\"boom\""));
    assert!(processing_failed("bad").to_json().contains("\"error\":\"Processing failed\""));
    assert_eq!(
        binary_message(&[1u8, 2, 3]).to_json(),
        "{\"type\":\"binary\",\"id\":null,\"data\":{\"data\":\"AQID\",\"length\":3}}"
    );
}

#[test]
fn ws_ping_and_echo_are_answered() {
    let ping = ws("ping", Some("1"), "{}", None);
    assert_eq!(
        builtin_reply(&ping, "2024-01-01T00:00:00+00:00"),
        Some("{\"type\":\"pong\",\"id\":\"1\",\"data\":{\"timestamp\":\"2024-01-01T00:00:00+00:00\"}}".to_string())
    );
    let echo = ws("echo", None, "{\"x\":1}", Some("{}"));
    assert_eq!(
        builtin_reply(&echo, "t"),
        Some("{\"type\":\"echo\",\"id\":null,\"data\":{\"x\":1},\"metadata\":{}}".to_string())
    );
    assert_eq!(builtin_reply(&ws("request", None, "{}", None), "t"), None);
}

#[test]
fn ws_component_and_handler_replies() {
    let id = Some("9".to_string());
    assert_eq!(
        component_ws_reply(&id, "hello", None),
        "{\"type\":\"response\",\"id\":\"9\",\"data\":{\"output\":\"hello\"}}"
    );
    let parsed = ws("custom", None, "1", None);
    assert_eq!(component_ws_reply(&id, "ignored", Some(parsed)), "{\"type\":\"custom\",\"id\":null,\"data\":1}");
    assert_eq!(
        no_ws_handler(&None),
        "{\"type\":\"error\",\"id\":null,\"data\":{\"error\":\"No WebSocket handler\",\"message\":\"Module must export 'handle_ws_message' function\"}}"
    );
}

#[test]
fn ws_session_steps() {
    assert!(matches!(session_step(WsFrame::Text("a".to_string())), WsStep::Process(t) if t == "a"));
    assert!(matches!(session_step(WsFrame::Ping(vec![1])), WsStep::Pong(p) if p == vec![1]));
    assert!(matches!(session_step(WsFrame::Pong), WsStep::Skip));
    assert!(matches!(session_step(WsFrame::Close), WsStep::Stop));
    assert!(matches!(session_step(WsFrame::Failed), WsStep::Stop));
    match session_step(WsFrame::Binary(vec![255])) {
        WsStep::ProcessQuietly(m) => assert_eq!(m, "{\"type\":\"binary\",\"id\":null,\"data\":{\"data\":\"/w==\",\"length\":1}}"),
        _ => panic!("binary frames are processed"),
    }
}


use pied_piper::bundle::AppBundle;
use pied_piper::content::publisher::ModuleMetadata;
use pied_piper::gateway::resolver::{fetched_info, ContentResolver, DependencyQueue, FetchAction, ModuleFetch};
use pied_piper::gateway::serve::{app_listing, error_reply, frontend_reply, html_reply, static_reply};
use pied_piper::wasm::loader::ModuleCid;

fn demo_bundle() -> AppBundle {
    AppBundle::from_parts(
        vec![0, 97, 115, 109],
        vec![
            ("index.html".to_string(), b"<html>".to_vec()),
            ("css/site.css".to_string(), b"body{}".to_vec()),
        ],
        "demo".to_string(),
        "1.0.0".to_string(),
        "demo.wasm".to_string(),
        0,
    )
}

fn header<'a>(r: &'a pied_piper::gateway::api::HttpReply, name: &str) -> Option<&'a str> {
    r.headers.iter().find(|(k, _)| k == name).map(|(_, v)| v.as_str())
}

#[test]
fn serve_bundle_front_page_and_spa_fallback() {
    let b = demo_bundle();
    let r = frontend_reply(b"ignored", Some(&b), "");
    assert_eq!(r.status, 200);
    assert_eq!(r.content_type, "text/html");
    assert_eq!(r.body, b"<html>".to_vec());
    assert_eq!(header(&r, "X-Frame-Options"), Some("SAMEORIGIN"));
    let etag = format!("\"{}\"", blake3::hash(b"<html>").to_hex());
    assert_eq!(header(&r, "etag"), Some(etag.as_str()));
    // a route without a dot falls back to index.html
    let r = frontend_reply(b"", Some(&b), "/dashboard");
    assert_eq!(r.body, b"<html>".to_vec());
    // a missing file with a dot is a 404 naming the assets
    let r = frontend_reply(b"", Some(&b), "/missing.png");
    assert_eq!(r.status, 404);
    let page = String::from_utf8(r.body).unwrap();
    assert!(page.contains("Asset 'missing.png' not found in bundle. Available assets: index.html, css/site.css"));
}

#[test]
fn serve_bundle_static_files() {
    let b = demo_bundle();
    let r = static_reply(b"", Some(&b), "/css/site.css");
    assert_eq!(r.status, 200);
    assert_eq!(r.content_type, "text/css");
    assert_eq!(header(&r, "cache-control"), Some("public, max-age=31536000, immutable"));
    let r = static_reply(b"", Some(&b), "nope.js");
    assert_eq!(r.status, 404);
    assert!(String::from_utf8(r.body).unwrap().contains("File 'nope.js' not found in bundle."));
}

fn tar_with(files: &[(&str, &[u8])]) -> Vec<u8> {
    let mut builder = tar::Builder::new(Vec::new());
    for (name, data) in files {
        let mut h = tar::Header::new_gnu();
        h.set_size(data.len() as u64);
        h.set_mode(0o644);
        h.set_cksum();
        builder.append_data(&mut h, name, *data).unwrap();
    }
    builder.into_inner().unwrap()
}

#[test]
fn serve_tar_archives() {
    let t = tar_with(&[("index.html", b"<p>hi</p>"), ("app.js", b"x()")]);
    let r = frontend_reply(&t, None, "/");
    assert_eq!(r.status, 200);
    assert_eq!(r.body, b"<p>hi</p>".to_vec());
    assert_eq!(header(&r, "cache-control"), Some("public, max-age=3600, must-revalidate"));
    let r = static_reply(&t, None, "/app.js");
    assert_eq!(r.status, 200);
    assert_eq!(r.content_type, "application/javascript");
    assert_eq!(r.body, b"x()".to_vec());
    let r = static_reply(&t, None, "/gone.css");
    assert_eq!(r.status, 404);
    // a TAR archive without the page asked for shows the listing
    let t2 = tar_with(&[("other.txt", b"x")]);
    let r = frontend_reply(&t2, None, "");
    assert!(String::from_utf8(r.body).unwrap().contains("Content type: TAR bundle"));
}

#[test]
fn serve_single_files_and_pages() {
    let r = static_reply(b"plain", None, "/notes.txt");
    assert_eq!(r.status, 200);
    assert_eq!(r.content_type, "text/plain");
    assert_eq!(r.body, b"plain".to_vec());
    let r = app_listing(b"12345");
    let page = String::from_utf8(r.body).unwrap();
    assert!(page.contains("Module size: 5 bytes"));
    assert!(page.contains("Content type: Single WASM file"));
    assert!(page.contains("\u{1f680} WebAssembly Application"));
    let r = error_reply(404, "gone");
    assert_eq!(r.status, 404);
    assert!(String::from_utf8(r.body).unwrap().contains("<h1>404 - Error</h1>"));
    let r = html_reply(b"<b>".to_vec());
    assert_eq!(r.headers.len(), 5);
}

#[test]
fn resolver_identifiers() {
    let cid = "bafkreigh2akiscaildcqabsyg3dfr6chu3fgpregiymsck7e7aqa4s52zy";
    assert!(ContentResolver::looks_like_cid(cid));
    assert_eq!(ContentResolver::resolve_local(cid), Some(cid.to_string()));
    assert!(!ContentResolver::looks_like_cid("my-app"));
    assert!(!ContentResolver::looks_like_cid("bafkreigh2akiscaildcqabsyg3dfr6chu3fgpre-gi"));
    assert_eq!(ContentResolver::resolve_local("my-app"), None);
}

#[test]
fn resolver_dependency_queue_hands_out_each_once() {
    let c = |s: &str| ModuleCid::new(s.to_string());
    let mut q = DependencyQueue::new(&vec![c("ba"), c("bb"), c("ba")]);
    assert_eq!(q.next(), Some("ba".to_string()));
    q.discovered(&vec![c("ba"), c("bc")]);
    assert_eq!(q.next(), Some("bb".to_string()));
    // the second "ba" was handed out already and is dropped
    assert_eq!(q.next(), Some("bc".to_string()));
    assert_eq!(q.next(), None);
}

fn fetch_meta(providers: &[&str]) -> ModuleMetadata {
    ModuleMetadata {
        cid: "bmod".to_string(),
        name: Some("app".to_string()),
        version: Some("1.0.0".to_string()),
        size: 99,
        dependencies: vec!["bdep1".to_string(), "bdep2".to_string()],
        author: Some("ann".to_string()),
        description: None,
        providers: providers.iter().map(|p| p.to_string()).collect(),
        published_at: 7,
    }
}

#[test]
fn module_fetch_prefers_the_cache() {
    let m = fetch_meta(&["p1"]);
    let (_f, a) = ModuleFetch::start(Some(vec![1, 2]), Some(&m));
    assert!(matches!(a, FetchAction::Give(Some(ref b)) if b == &vec![1u8, 2]));
    let (_f, a) = ModuleFetch::start(None, None);
    assert!(matches!(a, FetchAction::Give(None)));
    let empty = fetch_meta(&[]);
    let (_f, a) = ModuleFetch::start(None, Some(&empty));
    assert!(matches!(a, FetchAction::Give(None)));
}

#[test]
fn module_fetch_asks_each_provider_once_in_order() {
    let m = fetch_meta(&["p1", "p2", "p3"]);
    let (mut f, a) = ModuleFetch::start(None, Some(&m));
    assert!(matches!(a, FetchAction::TryProvider(ref p) if p == "p1"));
    assert!(matches!(f.on_answer(None), FetchAction::TryProvider(ref p) if p == "p2"));
    assert!(matches!(f.on_answer(Some(vec![9])), FetchAction::Give(Some(ref b)) if b == &vec![9u8]));

    let (mut f, _) = ModuleFetch::start(None, Some(&m));
    assert!(matches!(f.on_answer(None), FetchAction::TryProvider(ref p) if p == "p2"));
    assert!(matches!(f.on_answer(None), FetchAction::TryProvider(ref p) if p == "p3"));
    assert!(matches!(f.on_answer(None), FetchAction::Give(None)));
    assert!(matches!(f.on_answer(None), FetchAction::Give(None)));
}

#[test]
fn fetched_module_info_comes_from_metadata() {
    let m = fetch_meta(&["p1"]);
    let info = fetched_info("bmod", &m, 1234);
    assert_eq!(info.cid, ModuleCid::new("bmod".to_string()));
    assert_eq!(info.name.as_deref(), Some("app"));
    assert_eq!(info.version.as_deref(), Some("1.0.0"));
    assert_eq!(info.size, 1234);
    assert_eq!(
        info.dependencies,
        vec![ModuleCid::new("bdep1".to_string()), ModuleCid::new("bdep2".to_string())]
    );
    assert_eq!(info.author.as_deref(), Some("ann"));
    assert_eq!(info.description, None);
}
