use pied_piper::content::discovery::{DiscoveryError, ModuleDiscovery, QueryType};
use pied_piper::content::protocol::{ModuleRequest, ModuleResponse, PROTOCOL_NAME};
use pied_piper::content::provider::ModuleProvider;
use pied_piper::content::publisher::{ModulePublisher, NameRegistration};
use pied_piper::time::Duration;
use pied_piper::wasm::loader::{ModuleCid, ModuleInfo};

fn info(cid: &str, name: Option<&str>) -> ModuleInfo {
    ModuleInfo {
        cid: ModuleCid::new(cid.to_string()),
        name: name.map(|n| n.to_string()),
        version: Some("1.0.0".to_string()),
        size: 3,
        dependencies: vec![ModuleCid::new("bdep".to_string())],
        author: None,
        description: Some("d".to_string()),
    }
}

#[test]
fn test_metadata_key() {
    let cid = ModuleCid::from_bytes(b"test");
    let key = ModuleDiscovery::metadata_key(&cid);
    assert!(key.starts_with(b"module:"));
}

#[test]
fn test_name_key() {
    let key = ModuleDiscovery::name_key("my-module", "1.0.0");
    assert_eq!(key.as_slice(), b"name:my-module:1.0.0");
}

#[test]
fn discovery_tracks_queries() {
    let mut d = ModuleDiscovery::new();
    d.register_dht_query(1, QueryType::ModuleMetadata { cid: "bx".to_string() });
    d.register_request(2, QueryType::Providers { cid: "by".to_string() });
    assert_eq!(d.stats().pending_dht_queries, 1);
    assert_eq!(d.stats().pending_requests, 1);
    assert!(matches!(d.complete_dht_query(1), Some(QueryType::ModuleMetadata { .. })));
    assert!(d.complete_dht_query(1).is_none());
    d.cleanup_stale_queries(Duration::from_secs(3600));
    assert_eq!(d.stats().pending_requests, 1);
    d.cleanup_stale_queries(Duration::zero());
    assert!(d.stats().pending_requests <= 1);
    assert_eq!(d.stats().pending_dht_queries, 0);
    assert_eq!(d.parse_cid(b"bafy").unwrap(), "bafy");
    assert_eq!(d.parse_cid(&[0xff, 0xfe]), Err(DiscoveryError::InvalidCidRecord));
}

#[test]
fn provider_answers_requests() {
    let mut p = ModuleProvider::new();
    p.provide_module(info("bone", Some("hello-api")), b"abc".to_vec());
    p.provide_module(info("btwo", Some("other")), b"de".to_vec());
    assert!(p.is_providing("bone"));
    match p.handle_request(ModuleRequest::GetModule { cid: "bone".to_string() }) {
        ModuleResponse::Module { cid, bytes } => {
            assert_eq!(cid, "bone");
            assert_eq!(bytes, b"abc".to_vec());
        },
        other => panic!("unexpected {:?}", other),
    }
    assert_eq!(
        p.handle_request(ModuleRequest::GetModule { cid: "bzzz".to_string() }),
        ModuleResponse::NotFound { cid: "bzzz".to_string() }
    );
    match p.handle_request(ModuleRequest::GetModuleInfo { cid: "btwo".to_string() }) {
        ModuleResponse::ModuleInfo { name, dependencies, .. } => {
            assert_eq!(name, Some("other".to_string()));
            assert_eq!(dependencies, vec!["bdep".to_string()]);
        },
        other => panic!("unexpected {:?}", other),
    }
    match p.handle_request(ModuleRequest::SearchByName { name: "hello".to_string() }) {
        ModuleResponse::SearchResults { modules } => {
            assert_eq!(modules.len(), 1);
            assert_eq!(modules[0].cid, "bone");
        },
        other => panic!("unexpected {:?}", other),
    }
    assert_eq!(
        p.handle_request(ModuleRequest::ListModules),
        ModuleResponse::ModuleList { cids: vec!["bone".to_string(), "btwo".to_string()] }
    );
    let stats = p.stats();
    assert_eq!(stats.modules_count, 2);
    assert_eq!(stats.total_bytes, 5);
    p.stop_providing("bone");
    assert!(!p.is_providing("bone"));
    assert_eq!(p.provided_cids(), vec!["btwo".to_string()]);
    assert_eq!(PROTOCOL_NAME, "/pied-piper/module/1.0.0");
}

#[test]
fn publisher_records() {
    let p = ModulePublisher::new("peer1".to_string());
    let cid = ModuleCid::new("bcid".to_string());
    let r = p.create_name_record("app", "1.0.0", &cid);
    assert_eq!(r.key, b"name:app:1.0.0".to_vec());
    assert_eq!(r.value, b"bcid".to_vec());
    assert_eq!(r.publisher, Some("peer1".to_string()));
    assert_eq!(p.create_latest_name_record("app", &cid).key, b"name:app".to_vec());
    assert_eq!(p.metadata_record(&cid, vec![1]).key, b"module:bcid".to_vec());
    assert_eq!(p.persistent_name_record("app", vec![]).key, b"persistent-name:app".to_vec());
    let m = p.metadata_for(&info("bcid", Some("x")), 9, 77);
    assert_eq!(m.providers, vec!["peer1".to_string()]);
    assert_eq!(m.size, 9);
    assert_eq!(m.dependencies, vec!["bdep".to_string()]);
    let old = p.registration_for("app", &cid, None, 100);
    let new = NameRegistration { registered_at: 200, ..old.clone() };
    assert!(!ModulePublisher::should_replace_registration(&old, &new));
    assert!(ModulePublisher::should_replace_registration(&new, &old));
    assert!(!ModulePublisher::should_replace_registration(&old, &old));
}

#[test]
fn announcements_name_the_module_and_this_node() {
    let publisher = ModulePublisher::new("12D3KooWpub".to_string());
    let info = ModuleInfo {
        cid: ModuleCid::new("bmod".to_string()),
        name: Some("app".to_string()),
        version: None,
        size: 3,
        dependencies: vec![],
        author: None,
        description: None,
    };
    let a = publisher.announcement_for(&info, 1_700_000_000);
    assert_eq!(a.msg_type, "module_published");
    assert_eq!(a.cid, "bmod");
    assert_eq!(a.name.as_deref(), Some("app"));
    assert_eq!(a.version, None);
    assert_eq!(a.provider, "12D3KooWpub");
    assert_eq!(a.timestamp, 1_700_000_000);
}

#[test]
fn test_provide_and_get_module() {
    let mut provider = ModuleProvider::new();

    let cid = ModuleCid::from_bytes(b"test");
    let info = ModuleInfo {
        cid: cid.clone(),
        name: Some("test".to_string()),
        version: Some("1.0.0".to_string()),
        size: 4,
        dependencies: vec![],
        author: None,
        description: None,
    };

    let bytes = b"test".to_vec();

    provider.provide_module(info, bytes.clone());

    let request = ModuleRequest::GetModule { cid: cid.as_str().to_string() };

    let response = provider.handle_request(request);

    match response {
        ModuleResponse::Module { cid: _, bytes: resp_bytes } => {
            assert_eq!(resp_bytes, bytes);
        }
        _ => panic!("Expected Module response"),
    }
}
