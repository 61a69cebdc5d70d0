use pied_piper::cli::{Cli, Commands, ConfigAction};
use pied_piper::content::publisher::ModuleMetadata;
use pied_piper::network::kademlia_persistence::KademliaPersistence;
use pied_piper::network::node::{normalize_name_version, select_best_version, split_name_query, NetworkNodeConfig};
use pied_piper::network::transport::TransportConfig;

fn meta(cid: &str, version: Option<&str>) -> ModuleMetadata {
    ModuleMetadata {
        cid: cid.to_string(),
        name: Some("app".to_string()),
        version: version.map(|v| v.to_string()),
        size: 0,
        dependencies: vec![],
        author: None,
        description: None,
        providers: vec![],
        published_at: 0,
    }
}

#[test]
fn name_queries() {
    assert_eq!(split_name_query("  app@1.2.0 "), ("app".to_string(), Some("1.2.0".to_string())));
    assert_eq!(split_name_query("app:latest"), ("app".to_string(), Some("latest".to_string())));
    assert_eq!(split_name_query("app"), ("app".to_string(), None));
    assert_eq!(split_name_query("app@"), ("app".to_string(), None));
    assert_eq!(split_name_query("@1.0"), ("@1.0".to_string(), None));
    assert_eq!(normalize_name_version(" a ", " ", "fb"), ("a".to_string(), None));
}

#[test]
fn best_version_selection() {
    let modules = vec![meta("b1", Some("1.0.0")), meta("b2", Some("1.4.0")), meta("b3", None), meta("b4", Some("2.0.0"))];
    let best = select_best_version(modules.clone(), "^1.0.0").unwrap().unwrap();
    assert_eq!(best.cid, "b2");
    let latest = select_best_version(modules.clone(), "latest").unwrap().unwrap();
    assert_eq!(latest.cid, "b4");
    assert!(select_best_version(modules.clone(), "^3").unwrap().is_none());
    assert!(select_best_version(modules, "??").is_err());
}

#[test]
fn persistence_paths_and_state() {
    let p = KademliaPersistence::new("/var/pp");
    assert_eq!(p.db_path(), "/var/pp/kademlia.json");
    let peers = vec![("peerA".to_string(), vec!["/ip4/1.2.3.4/tcp/1".to_string()])];
    let state = KademliaPersistence::state_for("me", &peers, 99);
    assert_eq!(state.version, 1);
    assert_eq!(state.peers.len(), 1);
    assert_eq!(state.peers[0].last_seen, 99);
    assert_eq!(KademliaPersistence::restorable_peers(state.clone(), "me").len(), 1);
    assert!(KademliaPersistence::restorable_peers(state, "someone-else").is_empty());
}

#[test]
fn transport_and_cli_values() {
    let t = TransportConfig::default();
    assert!(t.enable_quic && t.enable_tcp);
    assert_eq!(t.connection_timeout, 30);
    let cli = Cli {
        command: Commands::Config { action: ConfigAction::Show { json: true } },
        verbose: false,
        config: None,
    };
    assert!(matches!(cli.command, Commands::Config { action: ConfigAction::Show { json: true } }));
}

use pied_piper::content::discovery::{ModuleDiscovery, QueryType};
use pied_piper::content::protocol::SearchResult;
use pied_piper::content::publisher::ModulePublisher;
use pied_piper::network::node::{
    dht_answer, local_metadata, merge_search_results, publication_records, DhtAnswer, DhtOutcome,
    Waiter,
};
use pied_piper::wasm::loader::{ModuleCid, ModuleInfo};

fn info(cid: &str, name: Option<&str>, version: Option<&str>) -> ModuleInfo {
    ModuleInfo {
        cid: ModuleCid::new(cid.to_string()),
        name: name.map(|s| s.to_string()),
        version: version.map(|s| s.to_string()),
        size: 42,
        dependencies: vec![ModuleCid::new("bdep".to_string())],
        author: Some("me".to_string()),
        description: None,
    }
}

fn found(cid: &str) -> SearchResult {
    SearchResult { cid: cid.to_string(), name: Some("app".to_string()), version: None, description: Some("d".to_string()) }
}

#[test]
fn node_local_metadata_names_this_peer() {
    let ms = local_metadata(&vec![info("b1", Some("app"), Some("1.0.0"))], "peer-1");
    assert_eq!(ms.len(), 1);
    assert_eq!(ms[0].cid, "b1");
    assert_eq!(ms[0].size, 42);
    assert_eq!(ms[0].dependencies, vec!["bdep".to_string()]);
    assert_eq!(ms[0].providers, vec!["peer-1".to_string()]);
    assert_eq!(ms[0].published_at, 0);
    assert_eq!(ms[0].author.as_deref(), Some("me"));
}

#[test]
fn node_merge_skips_known_cids() {
    let local = local_metadata(&vec![info("b1", Some("app"), None)], "me");
    let responses = vec![
        ("p1".to_string(), vec![found("b1"), found("b2"), found("b2")]),
        ("p2".to_string(), vec![found("b3"), found("b2")]),
    ];
    let merged = merge_search_results(local, &responses);
    let cids: Vec<&str> = merged.iter().map(|m| m.cid.as_str()).collect();
    assert_eq!(cids, vec!["b1", "b2", "b3"]);
    assert_eq!(merged[1].providers, vec!["p1".to_string()]);
    assert_eq!(merged[2].providers, vec!["p2".to_string()]);
    assert_eq!(merged[1].size, 0);
    assert!(merged[1].dependencies.is_empty());
    assert_eq!(merged[1].description.as_deref(), Some("d"));
}

#[test]
fn node_dht_answers() {
    let d = ModuleDiscovery::new();
    let meta_q = QueryType::ModuleMetadata { cid: "b1".to_string() };
    let name_q = QueryType::ModuleName { name: "app".to_string(), version: "1.0.0".to_string() };
    let m = local_metadata(&vec![info("b1", None, None)], "me").remove(0);
    assert!(matches!(dht_answer(&d, &meta_q, DhtOutcome::Found(vec![]), Some(Waiter::Metadata), Some(m.clone())), DhtAnswer::Metadata(Some(x)) if x.cid == "b1"));
    assert!(matches!(dht_answer(&d, &meta_q, DhtOutcome::Found(vec![]), Some(Waiter::Search), Some(m)), DhtAnswer::Search(v) if v.len() == 1));
    assert!(matches!(dht_answer(&d, &meta_q, DhtOutcome::Found(vec![]), Some(Waiter::Search), None), DhtAnswer::UnreadableMetadata));
    assert!(matches!(dht_answer(&d, &meta_q, DhtOutcome::Finished, Some(Waiter::Metadata), None), DhtAnswer::Metadata(None)));
    assert!(matches!(dht_answer(&d, &meta_q, DhtOutcome::Failed, Some(Waiter::Search), None), DhtAnswer::Search(v) if v.is_empty()));
    assert!(matches!(dht_answer(&d, &name_q, DhtOutcome::Found(b"bcid".to_vec()), Some(Waiter::Search), None), DhtAnswer::LookUpMetadata(c) if c == "bcid"));
    assert!(matches!(dht_answer(&d, &name_q, DhtOutcome::Found(vec![0xff]), Some(Waiter::Search), None), DhtAnswer::UnreadableCid));
    assert!(matches!(dht_answer(&d, &name_q, DhtOutcome::Failed, Some(Waiter::Search), None), DhtAnswer::Search(v) if v.is_empty()));
    // a name lookup for a metadata client, and a lookup nobody waits for, answer nothing
    assert!(matches!(dht_answer(&d, &name_q, DhtOutcome::Finished, Some(Waiter::Metadata), None), DhtAnswer::Nothing));
    assert!(matches!(dht_answer(&d, &meta_q, DhtOutcome::Finished, None, None), DhtAnswer::Nothing));
}

#[test]
fn node_publication_records() {
    let p = ModulePublisher::new("peer".to_string());
    let recs = publication_records(&p, &info("b1", Some("app"), Some("1.2.0")), b"{}".to_vec());
    assert_eq!(recs.len(), 3);
    assert_eq!(recs[0].key, b"module:b1".to_vec());
    assert_eq!(recs[0].value, b"{}".to_vec());
    assert_eq!(recs[1].key, b"name:app".to_vec());
    assert_eq!(recs[1].value, b"b1".to_vec());
    assert_eq!(recs[2].key, b"name:app:1.2.0".to_vec());
    assert_eq!(recs[2].publisher.as_deref(), Some("peer"));
    assert_eq!(publication_records(&p, &info("b1", Some("app"), None), vec![]).len(), 2);
    assert_eq!(publication_records(&p, &info("b1", None, Some("1.0.0")), vec![]).len(), 1);
}

use pied_piper::deploy::{
    deploy_identity, is_manifest_path, resolve_manifest_module, run_function, run_memory_bytes,
    search_line, AppBackend, AppManifest, AppRuntime, ManifestError,
};

fn manifest(module: Option<&str>, backend: Option<&str>) -> AppManifest {
    AppManifest {
        name: Some("from-manifest".to_string()),
        version: None,
        author: Some("a".to_string()),
        description: None,
        module: module.map(|s| s.to_string()),
        runtime: Some(AppRuntime { backend: Some(AppBackend { module: backend.map(|s| s.to_string()) }) }),
    }
}

#[test]
fn deploy_manifest_paths() {
    assert!(is_manifest_path("app.yaml"));
    assert!(is_manifest_path("dir/app.yml"));
    assert!(!is_manifest_path("app.wasm"));
    assert_eq!(resolve_manifest_module("apps/demo/app.yaml", &manifest(Some("m.wasm"), None)), Ok("apps/demo/m.wasm".to_string()));
    assert_eq!(resolve_manifest_module("app.yaml", &manifest(None, Some("b.wasm"))), Ok("b.wasm".to_string()));
    assert_eq!(resolve_manifest_module("app.yaml", &manifest(None, None)), Err(ManifestError::MissingModule));
    assert_eq!(ManifestError::MissingModule.message(), "Manifest missing module path");
}

#[test]
fn deploy_identity_defaults() {
    let m = manifest(None, None);
    let id = deploy_identity(None, None, None, Some("cli".to_string()), Some(&m));
    assert_eq!(id.name, "from-manifest");
    assert_eq!(id.version, "0.1.0");
    assert_eq!(id.author.as_deref(), Some("a"));
    assert_eq!(id.description.as_deref(), Some("cli"));
    let id = deploy_identity(Some("x".to_string()), Some("2.0.0".to_string()), None, None, None);
    assert_eq!(id.name, "x");
    assert_eq!(id.version, "2.0.0");
    assert_eq!(deploy_identity(None, None, None, None, None).name, "unnamed");
}

#[test]
fn deploy_search_and_run_settings() {
    let m = meta("bcid", Some("1.0.0"));
    assert_eq!(search_line(&m), "- app @ 1.0.0 (CID: bcid)");
    let mut n = meta("bz", None);
    n.name = None;
    assert_eq!(search_line(&n), "- unnamed @ unknown (CID: bz)");
    assert_eq!(run_function(&None), "_start");
    assert_eq!(run_function(&Some("main".to_string())), "main");
    assert_eq!(run_memory_bytes(64), 64 * 1024 * 1024);
}

#[test]
fn node_config_defaults_and_listen_addresses() {
    let c = NetworkNodeConfig::default();
    assert_eq!(c.tcp_port, 0);
    assert_eq!(c.quic_port, 0);
    assert!(c.enable_mdns);
    assert!(c.bootstrap_peers.is_empty());
    assert!(c.topics.is_empty());
    assert_eq!(
        c.listen_addresses(),
        vec!["/ip4/0.0.0.0/tcp/0".to_string(), "/ip4/0.0.0.0/udp/0/quic-v1".to_string()]
    );
    let c = NetworkNodeConfig { tcp_port: 4001, quic_port: 4002, ..NetworkNodeConfig::default() };
    assert_eq!(
        c.listen_addresses(),
        vec!["/ip4/0.0.0.0/tcp/4001".to_string(), "/ip4/0.0.0.0/udp/4002/quic-v1".to_string()]
    );
}

#[test]
fn bootstrap_dials_only_unconnected_peers() {
    let c = NetworkNodeConfig {
        bootstrap_peers: vec![
            ("p1".to_string(), "/ip4/1.1.1.1/tcp/1".to_string()),
            ("p2".to_string(), "/ip4/2.2.2.2/tcp/2".to_string()),
            ("p3".to_string(), "/ip4/3.3.3.3/tcp/3".to_string()),
        ],
        ..NetworkNodeConfig::default()
    };
    assert_eq!(
        c.bootstrap_to_dial(&vec!["p2".to_string()]),
        vec![
            ("p1".to_string(), "/ip4/1.1.1.1/tcp/1".to_string()),
            ("p3".to_string(), "/ip4/3.3.3.3/tcp/3".to_string()),
        ]
    );
    assert_eq!(c.bootstrap_to_dial(&vec![]).len(), 3);
    assert!(c
        .bootstrap_to_dial(&vec!["p1".to_string(), "p2".to_string(), "p3".to_string()])
        .is_empty());
}

use pied_piper::content::protocol::ModuleResponse;
use pied_piper::gateway::resolver::ContentResolver;
use pied_piper::network::node::{content_answer, reprovide_info, ContentAnswer, RequestWaiter};

#[test]
fn content_answers_go_to_the_waiting_client() {
    let r = content_answer(
        ModuleResponse::Module { cid: "b1".to_string(), bytes: vec![1, 2] },
        Some(RequestWaiter::Bytes),
        "peerA",
    );
    assert!(matches!(r, ContentAnswer::Bytes(Some(ref b)) if b == &vec![1u8, 2]));
    let r = content_answer(ModuleResponse::NotFound { cid: "b1".to_string() }, Some(RequestWaiter::Bytes), "peerA");
    assert!(matches!(r, ContentAnswer::Bytes(None)));
    let r = content_answer(
        ModuleResponse::Error { message: "boom".to_string() },
        Some(RequestWaiter::Bytes),
        "peerA",
    );
    assert!(matches!(r, ContentAnswer::RemoteError(ref m) if m == "Remote error: boom"));
    let results = vec![SearchResult { cid: "b2".to_string(), name: None, version: None, description: None }];
    let r = content_answer(
        ModuleResponse::SearchResults { modules: results.clone() },
        Some(RequestWaiter::SearchResults),
        "peerB",
    );
    assert!(matches!(r, ContentAnswer::Search { ref peer, results: ref got } if peer == "peerB" && got == &results));
    // a response nobody waits for, or of the wrong kind, is dropped
    let r = content_answer(ModuleResponse::NotFound { cid: "b1".to_string() }, None, "peerA");
    assert!(matches!(r, ContentAnswer::Nothing));
    let r = content_answer(
        ModuleResponse::Module { cid: "b1".to_string(), bytes: vec![] },
        Some(RequestWaiter::SearchResults),
        "peerA",
    );
    assert!(matches!(r, ContentAnswer::Nothing));
}

#[test]
fn reprovided_modules_keep_stored_info() {
    let cid = ModuleCid::new("bcached".to_string());
    let stored = info("bcached", Some("app"), Some("1.0.0"));
    let r = reprovide_info(&cid, Some(stored.clone()), 10);
    assert_eq!(r.name.as_deref(), Some("app"));
    assert_eq!(r.size, stored.size);
    let r = reprovide_info(&cid, None, 10);
    assert_eq!(r.cid, cid);
    assert_eq!(r.size, 10);
    assert!(r.name.is_none() && r.version.is_none() && r.dependencies.is_empty());
}

#[test]
fn names_resolve_to_the_first_result() {
    assert_eq!(ContentResolver::first_cid(&vec![]), None);
    let found = vec![meta("bfirst", Some("1.0.0")), meta("bsecond", Some("2.0.0"))];
    assert_eq!(ContentResolver::first_cid(&found), Some("bfirst".to_string()));
}

#[test]
fn discovery_requests_complete_once() {
    let mut d = ModuleDiscovery::new();
    d.register_request(5, QueryType::Providers { cid: "bx".to_string() });
    assert!(matches!(d.complete_request(5), Some(QueryType::Providers { ref cid }) if cid == "bx"));
    assert!(d.complete_request(5).is_none());
    assert_eq!(d.stats().pending_requests, 0);
}
