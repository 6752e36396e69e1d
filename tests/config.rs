use rustlb::addr::SocketAddress;
use rustlb::config::{
    Algorithm, BackendConfig, Config, FrontendConfig, GlobalConfig, HealthCheckConfig, HealthCheckDefaults,
    HealthCheckType, LogFormat, Protocol, ServerConfig,
};
use rustlb::validation::validate_config;

fn local(port: u16) -> SocketAddress {
    SocketAddress::v4(127, 0, 0, 1, port)
}

fn minimal_config() -> Config {
    Config {
        global: GlobalConfig::default(),
        health_check_defaults: HealthCheckDefaults::default(),
        frontends: vec![FrontendConfig {
            name: "test".to_string(),
            listen: local(8080),
            protocol: Protocol::Http,
            backend: "test-backend".to_string(),
            algorithm: Algorithm::RoundRobin,
            http: None,
            tcp: None,
        }],
        backends: vec![BackendConfig {
            name: "test-backend".to_string(),
            servers: vec![ServerConfig { address: local(9000), weight: 1 }],
            health_check: None,
        }],
    }
}

#[test]
fn test_default_config() {
    let config = Config {
        global: GlobalConfig::default(),
        health_check_defaults: HealthCheckDefaults::default(),
        frontends: vec![],
        backends: vec![],
    };
    assert_eq!(config.global.log_level, "info");
}

#[test]
fn test_log_format_variants() {
    assert_eq!(LogFormat::Json, LogFormat::Json);
    assert_eq!(LogFormat::Pretty, LogFormat::Pretty);
    assert_ne!(LogFormat::Json, LogFormat::Pretty);
}

#[test]
fn test_valid_config() {
    let config = minimal_config();
    assert!(validate_config(&config).is_ok());
}

#[test]
fn test_no_frontends() {
    let mut config = minimal_config();
    config.frontends.clear();
    let result = validate_config(&config);
    assert!(result.is_err());
    assert!(result.unwrap_err().contains("at least one frontend"));
}

#[test]
fn test_no_backends() {
    let mut config = minimal_config();
    config.backends.clear();
    let result = validate_config(&config);
    assert!(result.is_err());
    assert!(result.unwrap_err().contains("at least one backend"));
}

#[test]
fn test_missing_backend_reference() {
    let mut config = minimal_config();
    config.frontends[0].backend = "nonexistent".to_string();
    let result = validate_config(&config);
    assert!(result.is_err());
    assert!(result.unwrap_err().contains("non-existent backend"));
}

#[test]
fn test_duplicate_frontend_names() {
    let mut config = minimal_config();
    config.frontends.push(FrontendConfig {
        name: "test".to_string(),
        listen: local(8081),
        protocol: Protocol::Http,
        backend: "test-backend".to_string(),
        algorithm: Algorithm::RoundRobin,
        http: None,
        tcp: None,
    });
    let result = validate_config(&config);
    assert!(result.is_err());
    assert!(result.unwrap_err().contains("duplicate frontend name"));
}

#[test]
fn test_duplicate_listen_address() {
    let mut config = minimal_config();
    config.frontends.push(FrontendConfig {
        name: "test2".to_string(),
        listen: local(8080),
        protocol: Protocol::Http,
        backend: "test-backend".to_string(),
        algorithm: Algorithm::RoundRobin,
        http: None,
        tcp: None,
    });
    let result = validate_config(&config);
    assert!(result.is_err());
    assert!(result.unwrap_err().contains("duplicate listen address"));
}

#[test]
fn test_http_health_check_missing_path() {
    let mut config = minimal_config();
    config.backends[0].health_check = Some(HealthCheckConfig {
        check_type: HealthCheckType::Http,
        path: None,
        expected_status: 200,
        interval_ms: None,
        timeout_ms: None,
    });
    let result = validate_config(&config);
    assert!(result.is_err());
    assert!(result.unwrap_err().contains("no path specified"));
}

#[test]
fn test_zero_weight() {
    let mut config = minimal_config();
    config.backends[0].servers[0].weight = 0;
    let result = validate_config(&config);
    assert!(result.is_err());
    assert!(result.unwrap_err().contains("weight 0"));
}

#[test]
fn validation_reports_every_problem_in_order() {
    let mut config = minimal_config();
    config.frontends.push(FrontendConfig {
        name: "test".to_string(),
        listen: local(8080),
        protocol: Protocol::Tcp,
        backend: "missing".to_string(),
        algorithm: Algorithm::RoundRobin,
        http: None,
        tcp: None,
    });
    config.backends[0].servers[0].weight = 0;
    let err = validate_config(&config).unwrap_err();
    assert_eq!(
        err,
        "duplicate frontend name: test; duplicate listen address: 127.0.0.1:8080 (frontend: test); \
         frontend 'test' references non-existent backend 'missing'; \
         server 127.0.0.1:9000 in backend 'test-backend' has weight 0 (must be >= 1)"
    );
}

#[test]
fn validation_duplicate_backends_and_empty_names() {
    let mut config = minimal_config();
    config.backends.push(BackendConfig { name: "test-backend".to_string(), servers: vec![], health_check: None });
    config.backends.push(BackendConfig { name: String::new(), servers: vec![], health_check: None });
    let err = validate_config(&config).unwrap_err();
    assert_eq!(
        err,
        "duplicate backend names detected; backend 'test-backend' must have at least one server; \
         backend name cannot be empty; backend '' must have at least one server"
    );
}

#[test]
fn validation_log_level_any_case() {
    let mut config = minimal_config();
    config.global.log_level = "WARN".to_string();
    assert!(validate_config(&config).is_ok());
    config.global.log_level = "verbose".to_string();
    assert_eq!(
        validate_config(&config).unwrap_err(),
        "invalid log level 'verbose', must be one of: trace, debug, info, warn, error"
    );
}

#[test]
fn validation_empty_config_lists_both_missing_sections() {
    let mut config = minimal_config();
    config.frontends.clear();
    config.backends.clear();
    assert_eq!(
        validate_config(&config).unwrap_err(),
        "at least one frontend must be defined; at least one backend must be defined"
    );
}

#[test]
fn defaults_match_documented_values() {
    let d = HealthCheckDefaults::default();
    assert_eq!((d.interval_ms, d.timeout_ms, d.unhealthy_threshold, d.healthy_threshold, d.cooldown_ms), (10_000, 5_000, 3, 2, 30_000));
    let g = GlobalConfig::default();
    assert_eq!(g.metrics.path, "/metrics");
    assert_eq!(g.metrics.address.to_text(), "127.0.0.1:9090");
    assert_eq!(g.log_format, LogFormat::Json);
    let hc = HealthCheckConfig::default();
    assert_eq!(hc.expected_status, 200);
    assert_eq!(hc.check_type, HealthCheckType::Tcp);
}

#[test]
fn validation_empty_frontend_name() {
    let mut config = minimal_config();
    config.frontends[0].name = String::new();
    assert_eq!(validate_config(&config).unwrap_err(), "frontend name cannot be empty");
}

#[test]
fn validation_http_probe_message() {
    let mut config = minimal_config();
    config.backends[0].health_check = Some(HealthCheckConfig {
        check_type: HealthCheckType::Http,
        path: None,
        expected_status: 200,
        interval_ms: None,
        timeout_ms: None,
    });
    assert_eq!(
        validate_config(&config).unwrap_err(),
        "backend 'test-backend' has HTTP health check but no path specified"
    );
    config.backends[0].health_check.as_mut().unwrap().path = Some("/".to_string());
    assert!(validate_config(&config).is_ok());
}
