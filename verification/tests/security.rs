use pied_piper::security::{security_headers, ConnectionTracker, RequestValidator, SecurityConfig};

#[test]
fn test_security_config_default() {
    let config = SecurityConfig::default();
    assert_eq!(config.max_request_body_size, 16 * 1024 * 1024);
    assert_eq!(config.rate_limit_per_minute, 60);
    assert!(config.enable_hsts);
}

#[test]
fn test_path_validation() {
    let config = SecurityConfig::default();
    let validator = RequestValidator::new(config);

    assert!(validator.validate_path("/api/users").is_ok());
    assert!(validator.validate_path("/static/app.js").is_ok());
    assert!(validator.validate_path("/").is_ok());

    assert!(validator.validate_path("/../etc/passwd").is_err());
    assert!(validator.validate_path("/etc/shadow").is_err());
    assert!(validator.validate_path("/path/with/null\0byte").is_err());
    assert!(validator.validate_path("path//double//slash").is_err());
}

#[test]
fn mod_test_extension_validation() {
    let config = SecurityConfig::default();
    let validator = RequestValidator::new(config);

    assert!(validator.validate_extension("/app.js").is_ok());
    assert!(validator.validate_extension("/style.css").is_ok());
    assert!(validator.validate_extension("/module.wasm").is_ok());

    assert!(validator.validate_extension("/script.php").is_err());
    assert!(validator.validate_extension("/file.exe").is_err());
    assert!(validator.validate_extension("/shell.sh").is_err());
}

#[test]
fn test_path_sanitization() {
    let config = SecurityConfig::default();
    let validator = RequestValidator::new(config);

    assert_eq!(
        validator.sanitize_path("/api/user<script>"),
        "/api/userscript"
    );
    assert_eq!(validator.sanitize_path("/path;rm -rf"), "/pathrm-rf");
    assert_eq!(validator.sanitize_path("/normal_path-123"), "/normal_path-123");
}

#[test]
fn test_header_validation() {
    let config = SecurityConfig::default();
    let validator = RequestValidator::new(config);

    let headers = vec![
        ("user-agent".to_string(), b"Mozilla/5.0".to_vec()),
        ("accept".to_string(), b"text/html".to_vec()),
    ];
    assert!(validator.validate_headers(&headers).is_ok());

    let bad_headers = vec![("user-agent".to_string(), b"sqlmap/1.0".to_vec())];
    assert!(validator.validate_headers(&bad_headers).is_err());
}

#[test]
fn path_validation_statuses() {
    let validator = RequestValidator::new(SecurityConfig::default());
    assert_eq!(validator.validate_path("a\0"), Err(400));
    assert_eq!(validator.validate_path("/a/../b"), Err(403));
    assert_eq!(validator.validate_path("/a/b/c/d/e/f/g/h/i/j/k"), Err(400));
    assert_eq!(validator.validate_path("/x/proc/y"), Err(403));
    assert_eq!(validator.validate_path("/a/b/c/d/e/f/g/h/i/j"), Ok(()));
    assert_eq!(validator.validate_extension("/README"), Ok(()));
    assert_eq!(validator.validate_extension("/Doc.MD"), Ok(()));
}

#[test]
fn header_validation_statuses() {
    let mut config = SecurityConfig::default();
    config.max_header_size = 10;
    let validator = RequestValidator::new(config);
    let big = vec![("x-long".to_string(), b"0123456789".to_vec())];
    assert_eq!(validator.validate_headers(&big), Err(431));
    let mut config = SecurityConfig::default();
    config.block_suspicious_user_agents = false;
    let lenient = RequestValidator::new(config);
    let scanner = vec![("user-agent".to_string(), b"Nikto".to_vec())];
    assert_eq!(lenient.validate_headers(&scanner), Ok(()));
    let strict = RequestValidator::new(SecurityConfig::default());
    assert_eq!(strict.validate_headers(&scanner), Err(403));
    let binary = vec![("x".to_string(), b"a\r\nb".to_vec())];
    assert_eq!(strict.validate_headers(&binary), Ok(()));
}

#[test]
fn test_connection_tracker() {
    let mut config = SecurityConfig::default();
    config.max_connections_per_ip = 3;
    config.max_concurrent_requests = 10;

    let mut tracker = ConnectionTracker::new(config);
    let ip: u128 = 0xc0a8_0101;

    assert!(tracker.register_connection(ip).is_ok());
    assert!(tracker.register_connection(ip).is_ok());
    assert!(tracker.register_connection(ip).is_ok());

    assert!(tracker.register_connection(ip).is_err());

    tracker.unregister_connection(ip);

    assert!(tracker.register_connection(ip).is_ok());
}

#[test]
fn connection_tracker_counts() {
    let mut config = SecurityConfig::default();
    config.max_connections_per_ip = 5;
    config.max_concurrent_requests = 2;
    let mut tracker = ConnectionTracker::new(config);
    assert_eq!(tracker.register_connection(1), Ok(()));
    assert_eq!(tracker.register_connection(2), Ok(()));
    assert_eq!(tracker.register_connection(3), Err(503));
    assert_eq!(tracker.get_total_connections(), 2);
    assert_eq!(tracker.get_connection_count(1), 1);
    tracker.unregister_connection(1);
    assert_eq!(tracker.get_connection_count(1), 0);
    assert_eq!(tracker.get_total_connections(), 1);
    tracker.unregister_connection(9);
    assert_eq!(tracker.get_total_connections(), 0);
    tracker.unregister_connection(9);
    assert_eq!(tracker.get_total_connections(), 0);
}

#[test]
fn security_header_set() {
    let config = SecurityConfig::default();
    let headers = security_headers(&config);
    assert_eq!(headers.len(), 6);
    assert_eq!(headers[0], ("X-Content-Type-Options".to_string(), "nosniff".to_string()));
    assert_eq!(
        headers[4],
        ("Strict-Transport-Security".to_string(), "max-age=31536000; includeSubDomains; preload".to_string())
    );
    let mut plain = SecurityConfig::default();
    plain.enable_hsts = false;
    plain.enable_strict_csp = false;
    assert_eq!(security_headers(&plain).len(), 4);
}
