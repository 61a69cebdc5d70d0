use pied_piper::gateway::routing::CIDValidator;
use pied_piper::time::Duration;
use pied_piper::wasm::loader::version;
use pied_piper::wasm::loader::version::{
    find_best_match, find_latest, is_valid_requirement, is_valid_version, parse_requirement,
    parse_version,
};
use pied_piper::wasm::loader::ModuleCid;
use pied_piper::wasm::sandbox::{ExecutionContext, ExecutionStats, ResourceLimits, Sandbox};

#[test]
fn test_resource_limits_default() {
    let limits = ResourceLimits::default();
    assert_eq!(limits.max_memory_bytes, 128 * 1024 * 1024);
    assert_eq!(limits.max_execution_time, Duration::from_secs(30));
}

#[test]
fn test_resource_limits_conservative() {
    let limits = ResourceLimits::conservative();
    assert_eq!(limits.max_memory_bytes, 16 * 1024 * 1024);
    assert_eq!(limits.max_execution_time, Duration::from_secs(5));
}

#[test]
fn test_execution_context() {
    let limits = ResourceLimits::default();
    let ctx = ExecutionContext::new(limits);
    assert!(!ctx.is_time_exceeded());
}

#[test]
fn test_sandbox_creation() {
    let sandbox = Sandbox::with_defaults();
    assert_eq!(sandbox.limits().max_memory_bytes, 128 * 1024 * 1024);

    let conservative = Sandbox::conservative();
    assert_eq!(conservative.limits().max_memory_bytes, 16 * 1024 * 1024);
}

#[test]
fn execution_context_time_and_fuel() {
    let ctx = ExecutionContext::new(ResourceLimits::conservative());
    assert!(ctx.exceeds_time(Duration::from_secs(6)));
    assert!(!ctx.exceeds_time(Duration::from_secs(5)));
    assert!(ctx.exceeds_time(Duration::new(5, 1)));
    assert_eq!(ctx.fuel_consumed(400_000), 600_000);
    assert_eq!(ctx.fuel_consumed(2_000_000), 0);
    assert!(ctx.elapsed_time().as_secs() < 5);
}

#[test]
fn permissive_limits_and_stats() {
    let p = ResourceLimits::permissive();
    assert_eq!(p.max_memory_bytes, 512 * 1024 * 1024);
    assert_eq!(p.max_execution_time, Duration::from_secs(120));
    assert_eq!(Sandbox::permissive().limits().max_fuel, 100_000_000);
    let s = ExecutionStats::new();
    assert_eq!(s.fuel_consumed, 0);
    assert_eq!(s.duration, Duration::zero());
}

#[test]
fn module_requirements_checked() {
    let sandbox = Sandbox::conservative();
    assert!(sandbox.check_requirements(&[1, 256], &[10]).is_ok());
    assert_eq!(
        sandbox.check_requirements(&[257], &[]),
        Err("Module requires 16842752 bytes of memory, but limit is 16777216".to_string())
    );
    assert_eq!(
        sandbox.check_requirements(&[], &[1001]),
        Err("Module requires 1001 table elements, but limit is 1000".to_string())
    );
}

#[test]
fn durations() {
    let d = Duration::from_millis(1500);
    assert_eq!(d.as_secs(), 1);
    assert_eq!(d.subsec_nanos(), 500_000_000);
    assert_eq!(d.as_nanos(), 1_500_000_000);
    assert_eq!(Duration::new(1, 2_000_000_000), Duration::from_secs(3));
}

#[test]
fn test_module_cid_generation() {
    let data = b"hello world";
    let cid1 = ModuleCid::from_bytes(data);
    let cid2 = ModuleCid::from_bytes(data);

    assert_eq!(cid1, cid2);
    assert!(cid1.as_str().starts_with('b'));
}

#[test]
fn module_cid_passes_validation() {
    let cid = ModuleCid::from_bytes(b"\0asm\x01\0\0\0");
    assert_eq!(cid.as_str().len(), 53);
    assert!(CIDValidator::validate(cid.as_str()).is_ok());
    assert_ne!(ModuleCid::from_bytes(b"a"), ModuleCid::from_bytes(b"b"));
    assert_eq!(ModuleCid::new("bxyz".to_string()).as_str(), "bxyz");
}

#[test]
fn test_parse_version() {
    assert!(parse_version("1.0.0").is_ok());
    assert!(parse_version("0.1.2").is_ok());
    assert!(parse_version("invalid").is_err());
}

#[test]
fn test_parse_requirement() {
    assert!(parse_requirement("^1.0.0").is_ok());
    assert!(parse_requirement("~1.2.3").is_ok());
    assert!(parse_requirement(">=2.0.0").is_ok());
    assert!(parse_requirement("1.0.0").is_ok());
    assert!(parse_requirement("invalid").is_err());
}

#[test]
fn test_matches() {
    assert!(version::matches("1.2.3", "^1.0.0").unwrap());
    assert!(version::matches("1.2.3", "~1.2.0").unwrap());
    assert!(version::matches("2.0.0", ">=2.0.0").unwrap());
    assert!(!version::matches("0.9.0", "^1.0.0").unwrap());
}

#[test]
fn test_find_best_match() {
    let available = vec![
        "1.0.0".to_string(),
        "1.1.0".to_string(),
        "1.2.0".to_string(),
        "2.0.0".to_string(),
    ];

    assert_eq!(
        find_best_match(&available, "^1.0.0").unwrap(),
        Some("1.2.0".to_string())
    );

    assert_eq!(
        find_best_match(&available, "~1.1.0").unwrap(),
        Some("1.1.0".to_string())
    );

    assert_eq!(
        find_best_match(&available, ">=2.0.0").unwrap(),
        Some("2.0.0".to_string())
    );

    assert_eq!(find_best_match(&available, "^3.0.0").unwrap(), None);
}

#[test]
fn test_find_latest() {
    let available = vec![
        "1.0.0".to_string(),
        "2.1.0".to_string(),
        "1.5.0".to_string(),
        "2.0.0".to_string(),
    ];

    assert_eq!(find_latest(&available), Some("2.1.0".to_string()));
}

#[test]
fn test_find_latest_empty() {
    let available: Vec<String> = vec![];
    assert_eq!(find_latest(&available), None);
}

#[test]
fn test_is_valid_version() {
    assert!(is_valid_version("1.0.0"));
    assert!(is_valid_version("0.1.2"));
    assert!(!is_valid_version("invalid"));
    assert!(!is_valid_version("1.0"));
}

#[test]
fn test_is_valid_requirement() {
    assert!(is_valid_requirement("^1.0.0"));
    assert!(is_valid_requirement("~1.2.3"));
    assert!(is_valid_requirement(">=2.0.0"));
    assert!(!is_valid_requirement("invalid"));
}

#[test]
fn version_errors() {
    assert_eq!(version::matches("x", "^1").unwrap_err().message(), "Invalid semver version: x");
    assert_eq!(version::matches("1.0.0", "??").unwrap_err().message(), "Invalid version requirement: ??");
    assert!(find_best_match(&["1.0.0".to_string()], "??").is_err());
    let mixed = vec!["junk".to_string(), "1.0.0-alpha".to_string(), "1.0.0".to_string()];
    assert_eq!(find_latest(&mixed), Some("1.0.0".to_string()));
}

use pied_piper::wasm::runtime::{command_outcome, memory_growing, table_growing, WasmRuntimeConfig};

#[test]
fn runtime_config_defaults() {
    let c = WasmRuntimeConfig::default();
    assert_eq!(c.max_memory_bytes, 128 * 1024 * 1024);
    assert_eq!(c.max_execution_time.as_secs(), 30);
    assert!(c.enable_async && c.enable_wasi && c.enable_fuel);
    assert_eq!(c.initial_fuel, 10_000_000);
    assert!(c.enforces_timeout());
    assert_eq!(c.store_fuel(), Some(10_000_000));
    let c = WasmRuntimeConfig {
        max_execution_time: pied_piper::time::Duration::zero(),
        enable_fuel: false,
        ..WasmRuntimeConfig::default()
    };
    assert!(!c.enforces_timeout());
    assert_eq!(c.store_fuel(), None);
}

#[test]
fn runtime_growth_limits() {
    assert!(memory_growing(512 * 1024 * 1024));
    assert!(!memory_growing(512 * 1024 * 1024 + 1));
    assert!(table_growing(10000));
    assert!(!table_growing(10001));
    assert_eq!(command_outcome(Ok(())), Ok(()));
    assert_eq!(command_outcome(Err(())), Err("Component returned error exit code".to_string()));
}
