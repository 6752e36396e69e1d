use rustlb::addr::SocketAddress;
use rustlb::config::HttpConfig;
use rustlb::http_proxy::{
    bad_gateway_body, origin_form, request_headers, response_headers, substitute_variables, HttpProxyConfig,
    upstream_failure_status, ProxyContext, UpstreamFailure,
};
use rustlb::metrics::{index_body, metrics_route, BackendLabels, MetricsRoute, RequestLabels};
use rustlb::tcp_proxy::{connect_result, session_outcome, tcp_connect_timeout, ConnectOutcome, TcpProxyError};

fn test_context() -> ProxyContext {
    ProxyContext {
        client_addr: SocketAddress::v4(192, 168, 1, 100, 12345),
        backend_addr: SocketAddress::v4(10, 0, 0, 1, 8080),
        frontend_name: "test-frontend".to_string(),
        backend_name: "web-servers".to_string(),
        config: HttpProxyConfig::default(),
        connection_request_id: "test-request-123".to_string(),
    }
}

#[test]
fn test_substitute_variables() {
    let ctx = test_context();
    assert_eq!(substitute_variables("$client_ip", &ctx), "192.168.1.100");
    assert_eq!(substitute_variables("$backend_name", &ctx), "web-servers");
    assert_eq!(substitute_variables("client=$client_ip:$client_port", &ctx), "client=192.168.1.100:12345");
}

#[test]
fn substitution_is_single_pass() {
    let mut ctx = test_context();
    ctx.backend_name = "$client_ip".to_string();
    assert_eq!(substitute_variables("[$backend_name]", &ctx), "[$client_ip]");
    assert_eq!(substitute_variables("$backend_addr $unknown $", &ctx), "10.0.0.1:8080 $unknown $");
    assert_eq!(substitute_variables("", &ctx), "");
}

#[test]
fn test_error_response() {
    assert_eq!(bad_gateway_body("test error"), "502 Bad Gateway: test error\n");
    assert_eq!(upstream_failure_status(), 502);
}

#[test]
fn header_plans() {
    let mut ctx = test_context();
    ctx.config.request_headers = vec![("x-client".to_string(), "$client_ip:$client_port".to_string())];
    ctx.config.response_headers = vec![("x-pool".to_string(), "$backend_name".to_string())];
    let req = request_headers(&ctx);
    assert_eq!(
        req,
        vec![
            ("x-forwarded-for".to_string(), "192.168.1.100".to_string()),
            ("x-real-ip".to_string(), "192.168.1.100".to_string()),
            ("x-client".to_string(), "192.168.1.100:12345".to_string()),
        ]
    );
    let resp = response_headers(&ctx);
    assert_eq!(
        resp,
        vec![
            ("x-served-by".to_string(), "web-servers:10.0.0.1:8080".to_string()),
            ("x-pool".to_string(), "web-servers".to_string()),
        ]
    );
}

#[test]
fn origin_form_target() {
    assert_eq!(origin_form(Some("/a?b=1")), "/a?b=1");
    assert_eq!(origin_form(None), "/");
}

#[test]
fn proxy_config_from_listener() {
    let http = HttpConfig {
        request_headers: vec![("a".to_string(), "1".to_string())],
        response_headers: vec![],
    };
    let cfg = HttpProxyConfig::from_frontend(&Some(http));
    assert_eq!(cfg.request_headers, vec![("a".to_string(), "1".to_string())]);
    assert_eq!(cfg.connect_timeout_ms, 10_000);
    assert!(HttpProxyConfig::from_frontend(&None).request_headers.is_empty());
}

#[test]
fn tcp_outcomes() {
    let backend = SocketAddress::v4(10, 255, 255, 1, 12345);
    assert!(connect_result(backend, ConnectOutcome::Connected).is_ok());
    match connect_result(backend, ConnectOutcome::TimedOut) {
        Err(TcpProxyError::BackendTimeout(a)) => assert_eq!(a, backend),
        other => panic!("expected timeout error, got: {:?}", other),
    }
    let refused = connect_result(SocketAddress::v4(127, 0, 0, 1, 1), ConnectOutcome::Failed("refused".to_string()));
    match &refused {
        Err(e @ TcpProxyError::BackendConnectError(_, _)) => {
            assert_eq!(e.message(), "failed to connect to backend 127.0.0.1:1: refused")
        }
        other => panic!("expected connect error, got: {:?}", other),
    }
    assert_eq!(TcpProxyError::BackendTimeout(backend).message(), "connection timeout to backend 10.255.255.1:12345");
    let r = session_outcome(Ok(1024), Ok(2048)).unwrap();
    assert_eq!((r.bytes_to_backend, r.bytes_to_client), (1024, 2048));
    match session_outcome(Ok(1024), Err("reset".to_string())) {
        Err(e) => assert_eq!(e.message(), "proxy error: reset"),
        Ok(r) => panic!("expected a copy error, got: {:?}", r),
    }
    match session_outcome(Err("broken pipe".to_string()), Err("reset".to_string())) {
        Err(e) => assert_eq!(e.message(), "proxy error: broken pipe"),
        Ok(r) => panic!("expected a copy error, got: {:?}", r),
    }
    assert_eq!(tcp_connect_timeout(&None), 10_000);
}

#[test]
fn metric_labels() {
    let l = RequestLabels::new("web", "api", "GET", 502);
    assert_eq!(l.status, "502");
    let b = BackendLabels::new("api", SocketAddress::v6(1, 8080));
    assert_eq!(b.server, "[::1]:8080");
}

#[test]
fn tcp_copy_error_message() {
    assert_eq!(TcpProxyError::ProxyError("reset".to_string()).message(), "proxy error: reset");
}

#[test]
fn upstream_failure_bodies() {
    assert_eq!(UpstreamFailure::Connect.body(), "502 Bad Gateway: Failed to connect to backend\n");
    assert_eq!(UpstreamFailure::Handshake.body(), "502 Bad Gateway: Backend handshake failed\n");
    assert_eq!(UpstreamFailure::Send.body(), "502 Bad Gateway: Failed to send request to backend\n");
}

#[test]
fn ipv6_text_matches_std() {
    let cases: [(u128, &str); 7] = [
        (1, "::1"),
        (0, "::"),
        (0x2001_0db8_0000_0000_0000_0000_0000_0001, "2001:db8::1"),
        (0x2001_0db8_0000_0001_0000_0000_0001_0000, "2001:db8:0:1::1:0"),
        (0x2001_0db8_0000_0000_0001_0000_0000_0001, "2001:db8::1:0:0:1"),
        (0x0000_0000_0000_0000_0000_ffff_c000_0280, "::ffff:192.0.2.128"),
        (0x2001_0db8_0001_0002_0003_0004_0000_0005, "2001:db8:1:2:3:4:0:5"),
    ];
    for (x, text) in cases {
        assert_eq!(rustlb::addr::IpAddress::V6(x).to_text(), text);
    }
    assert_eq!(SocketAddress::v6(1, 8080).to_text(), "[::1]:8080");
    assert_eq!(SocketAddress::v6_scoped(0xfe80_0000_0000_0000_0000_0000_0000_0001, 80, 3).to_text(), "[fe80::1%3]:80");
}

#[test]
fn ipv6_client_headers() {
    let mut ctx = test_context();
    ctx.client_addr = SocketAddress::v6(1, 5555);
    ctx.backend_addr = SocketAddress::v6(1, 8080);
    ctx.backend_name = "b".to_string();
    let req = request_headers(&ctx);
    assert_eq!(req[0], ("x-forwarded-for".to_string(), "::1".to_string()));
    assert_eq!(req[1], ("x-real-ip".to_string(), "::1".to_string()));
    assert_eq!(response_headers(&ctx)[0], ("x-served-by".to_string(), "b:[::1]:8080".to_string()));
}

#[test]
fn proxy_config_keeps_last_header_of_a_name() {
    let http = HttpConfig {
        request_headers: vec![
            ("a".to_string(), "1".to_string()),
            ("b".to_string(), "2".to_string()),
            ("a".to_string(), "3".to_string()),
        ],
        response_headers: vec![("c".to_string(), "4".to_string())],
    };
    let cfg = HttpProxyConfig::from_frontend(&Some(http));
    assert_eq!(cfg.request_headers, vec![("b".to_string(), "2".to_string()), ("a".to_string(), "3".to_string())]);
    assert_eq!(cfg.response_headers, vec![("c".to_string(), "4".to_string())]);
}

#[test]
fn metrics_endpoint_routes() {
    assert_eq!(metrics_route(true, "/metrics", "/metrics"), MetricsRoute::Metrics);
    assert_eq!(metrics_route(true, "/health", "/metrics"), MetricsRoute::Health);
    assert_eq!(metrics_route(true, "/healthz", "/metrics"), MetricsRoute::Health);
    assert_eq!(metrics_route(true, "/", "/metrics"), MetricsRoute::Index);
    assert_eq!(metrics_route(true, "/other", "/metrics"), MetricsRoute::NotFound);
    assert_eq!(metrics_route(false, "/metrics", "/metrics"), MetricsRoute::MethodNotAllowed);
    assert_eq!(
        index_body("/metrics"),
        "rustlb metrics server\n\nEndpoints:\n  /metrics - Prometheus metrics\n  /health - Health check\n"
    );
}
