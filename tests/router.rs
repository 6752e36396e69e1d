use rustlb::addr::SocketAddress;
use rustlb::config::{Algorithm, BackendConfig, FrontendConfig, Protocol, ServerConfig};
use rustlb::router::BackendRouter;
use rustlb::listener::{begin_connection, end_connection, ConnectionPlan};

fn local(port: u16) -> SocketAddress {
    SocketAddress::v4(127, 0, 0, 1, port)
}

fn pool(name: &str, servers: &[(u16, u32)]) -> BackendConfig {
    BackendConfig {
        name: name.to_string(),
        servers: servers.iter().map(|&(p, w)| ServerConfig { address: local(p), weight: w }).collect(),
        health_check: None,
    }
}

fn frontend(name: &str, listen: SocketAddress, protocol: Protocol, backend: &str, algorithm: Algorithm) -> FrontendConfig {
    FrontendConfig {
        name: name.to_string(),
        listen,
        protocol,
        backend: backend.to_string(),
        algorithm,
        http: None,
        tcp: None,
    }
}

#[test]
fn test_round_robin_selection() {
    let backends = vec![pool("test-backend", &[(9001, 1), (9002, 1)])];
    let frontends = vec![frontend("test", local(8080), Protocol::Tcp, "test-backend", Algorithm::RoundRobin)];
    let mut router = BackendRouter::new(&backends, &frontends);
    let s1 = router.select("test-backend", None).unwrap();
    let s2 = router.select("test-backend", None).unwrap();
    let s3 = router.select("test-backend", None).unwrap();
    assert_ne!(s1, s2);
    assert_eq!(s1, s3);
}

#[test]
fn test_nonexistent_backend() {
    let backends = vec![pool("test-backend", &[(9001, 1), (9002, 1)])];
    let frontends = vec![frontend("test", local(8080), Protocol::Tcp, "test-backend", Algorithm::RoundRobin)];
    let mut router = BackendRouter::new(&backends, &frontends);
    assert!(router.select("nonexistent", None).is_none());
}

#[test]
fn test_weighted_selection() {
    let backends = vec![pool("weighted-backend", &[(9001, 3), (9002, 1)])];
    let frontends = vec![frontend("test", local(8080), Protocol::Tcp, "weighted-backend", Algorithm::Weighted)];
    let mut router = BackendRouter::new(&backends, &frontends);
    let mut s1_count = 0;
    let mut s2_count = 0;
    for _ in 0..40 {
        let selected = router.select("weighted-backend", None).unwrap();
        if selected == local(9001) {
            s1_count += 1;
        } else {
            s2_count += 1;
        }
    }
    assert_eq!(s1_count, 30);
    assert_eq!(s2_count, 10);
}

#[test]
fn test_least_connections_selection() {
    let backends = vec![pool("lc-backend", &[(9001, 1), (9002, 1)])];
    let frontends = vec![frontend("test", local(8080), Protocol::Tcp, "lc-backend", Algorithm::LeastConnections)];
    let mut router = BackendRouter::new(&backends, &frontends);
    let s1 = local(9001);
    router.on_connect("lc-backend", s1);
    router.on_connect("lc-backend", s1);
    let selected = router.select("lc-backend", None).unwrap();
    assert_eq!(selected, local(9002));
}

#[test]
fn router_test_ip_hash_consistency() {
    let backends = vec![pool("ip-backend", &[(9001, 1), (9002, 1)])];
    let frontends = vec![frontend("test", local(8080), Protocol::Tcp, "ip-backend", Algorithm::IpHash)];
    let mut router = BackendRouter::new(&backends, &frontends);
    let client = SocketAddress::v4(192, 168, 1, 100, 12345);
    let s1 = router.select("ip-backend", Some(client)).unwrap();
    let s2 = router.select("ip-backend", Some(client)).unwrap();
    let s3 = router.select("ip-backend", Some(client)).unwrap();
    assert_eq!(s1, s2);
    assert_eq!(s2, s3);
}

#[test]
fn test_backend_router_round_robin() {
    let backends = vec![pool("test", &[(9001, 1), (9002, 1)])];
    let frontends = vec![frontend("test-frontend", local(0), Protocol::Http, "test", Algorithm::RoundRobin)];
    let mut router = BackendRouter::new(&backends, &frontends);
    let addr1 = router.select("test", None).unwrap();
    let addr2 = router.select("test", None).unwrap();
    let addr3 = router.select("test", None).unwrap();
    assert_ne!(addr1, addr2);
    assert_eq!(addr1, addr3);
}

#[test]
fn test_backend_router_weighted() {
    let backends = vec![pool("test", &[(9001, 3), (9002, 1)])];
    let frontends = vec![frontend("test-frontend", local(0), Protocol::Http, "test", Algorithm::Weighted)];
    let mut router = BackendRouter::new(&backends, &frontends);
    let mut count_9001 = 0;
    let mut count_9002 = 0;
    for _ in 0..100 {
        let addr = router.select("test", None).unwrap();
        if addr.port() == 9001 {
            count_9001 += 1;
        } else {
            count_9002 += 1;
        }
    }
    assert!(count_9001 > count_9002 * 2, "weighted distribution incorrect: {} vs {}", count_9001, count_9002);
}

#[test]
fn test_backend_router_ip_hash() {
    let backends = vec![pool("test", &[(9001, 1), (9002, 1)])];
    let frontends = vec![frontend("test-frontend", local(0), Protocol::Http, "test", Algorithm::IpHash)];
    let mut router = BackendRouter::new(&backends, &frontends);
    let client_addr = SocketAddress::v4(192, 168, 1, 100, 12345);
    let addr1 = router.select("test", Some(client_addr)).unwrap();
    let addr2 = router.select("test", Some(client_addr)).unwrap();
    let addr3 = router.select("test", Some(client_addr)).unwrap();
    assert_eq!(addr1, addr2);
    assert_eq!(addr2, addr3);
}

#[test]
fn router_round_robin_cycle_of_three() {
    let backends = vec![pool("p", &[(9001, 1), (9002, 1), (9003, 1)])];
    let frontends = vec![frontend("f", local(8080), Protocol::Tcp, "p", Algorithm::RoundRobin)];
    let mut router = BackendRouter::new(&backends, &frontends);
    let ports: Vec<u16> = (0..4).map(|_| router.select("p", None).unwrap().port()).collect();
    assert_eq!(ports, vec![9001, 9002, 9003, 9001]);
}

#[test]
fn router_weighted_exact_over_four_hundred() {
    let backends = vec![pool("p", &[(9001, 3), (9002, 1)])];
    let frontends = vec![frontend("f", local(8080), Protocol::Tcp, "p", Algorithm::Weighted)];
    let mut router = BackendRouter::new(&backends, &frontends);
    let mut c1 = 0;
    let mut c2 = 0;
    for _ in 0..400 {
        match router.select("p", None).unwrap().port() {
            9001 => c1 += 1,
            _ => c2 += 1,
        }
    }
    assert_eq!((c1, c2), (300, 100));
}

#[test]
fn router_ip_hash_same_ip_other_port() {
    let backends = vec![pool("p", &[(9001, 1), (9002, 1), (9003, 1)])];
    let frontends = vec![frontend("f", local(8080), Protocol::Tcp, "p", Algorithm::IpHash)];
    let mut router = BackendRouter::new(&backends, &frontends);
    let a = router.select("p", Some(SocketAddress::v4(192, 168, 1, 100, 12345)));
    let b = router.select("p", Some(SocketAddress::v4(192, 168, 1, 100, 54321)));
    assert_eq!(a, b);
    assert_eq!(a, router.select("p", Some(SocketAddress::v4(192, 168, 1, 100, 12345))));
}

#[test]
fn router_least_connections_preloaded() {
    let backends = vec![pool("p", &[(9001, 1), (9002, 1), (9003, 1)])];
    let frontends = vec![frontend("f", local(8080), Protocol::Tcp, "p", Algorithm::LeastConnections)];
    let mut router = BackendRouter::new(&backends, &frontends);
    router.on_connect("p", local(9001));
    router.on_connect("p", local(9001));
    router.on_connect("p", local(9002));
    assert_eq!(router.select("p", None), Some(local(9003)));
    assert_eq!(router.connection_count("p", local(9001)), 2);
    router.on_disconnect("p", local(9001));
    assert_eq!(router.connection_count("p", local(9001)), 1);
}

#[test]
fn router_empty_pool_gives_none() {
    let backends = vec![pool("p", &[])];
    for alg in [Algorithm::RoundRobin, Algorithm::Weighted, Algorithm::LeastConnections, Algorithm::IpHash] {
        let frontends = vec![frontend("f", local(8080), Protocol::Tcp, "p", alg)];
        let mut router = BackendRouter::new(&backends, &frontends);
        assert_eq!(router.select("p", Some(local(1))), None);
    }
}

#[test]
fn router_pool_without_frontend_uses_round_robin() {
    let backends = vec![pool("p", &[(9001, 5), (9002, 1)])];
    let mut router = BackendRouter::new(&backends, &[]);
    let ports: Vec<u16> = (0..4).map(|_| router.select("p", None).unwrap().port()).collect();
    assert_eq!(ports, vec![9001, 9002, 9001, 9002]);
}

#[test]
fn router_get_servers_lists_addresses() {
    let backends = vec![pool("p", &[(9001, 1), (9002, 4)])];
    let router = BackendRouter::new(&backends, &[]);
    assert_eq!(router.get_servers("p"), Some(vec![local(9001), local(9002)]));
    assert_eq!(router.get_servers("q"), None);
    assert_eq!(router.connection_count("q", local(9001)), 0);
}

#[test]
fn router_later_pool_of_a_name_replaces_earlier() {
    let backends = vec![pool("p", &[(9001, 1)]), pool("q", &[(9100, 1)]), pool("p", &[(9002, 1), (9003, 1)])];
    let mut router = BackendRouter::new(&backends, &[]);
    assert_eq!(router.get_servers("p"), Some(vec![local(9002), local(9003)]));
    assert_eq!(router.get_servers("q"), Some(vec![local(9100)]));
    assert_eq!(router.select("p", None), Some(local(9002)));
}

#[test]
fn listener_records_connection_with_pool_policy() {
    let backends = vec![pool("p", &[(9001, 1), (9002, 1)])];
    let f = frontend("f", local(8080), Protocol::Tcp, "p", Algorithm::LeastConnections);
    let mut router = BackendRouter::new(&backends, &[f.clone()]);
    let plan = begin_connection(&mut router, &f, SocketAddress::v4(10, 0, 0, 1, 5000));
    let picked = match plan {
        ConnectionPlan::Tcp { backend, connect_timeout_ms } => {
            assert_eq!(connect_timeout_ms, 10_000);
            backend
        }
        _ => panic!("expected a TCP plan"),
    };
    assert_eq!(picked, local(9001));
    assert_eq!(router.connection_count("p", local(9001)), 1);
    let second = begin_connection(&mut router, &f, SocketAddress::v4(10, 0, 0, 2, 5000));
    assert!(matches!(second, ConnectionPlan::Tcp { backend, .. } if backend == local(9002)));
    end_connection(&mut router, &f, local(9001));
    assert_eq!(router.connection_count("p", local(9001)), 0);
    let missing = frontend("g", local(8081), Protocol::Http, "absent", Algorithm::RoundRobin);
    assert!(matches!(begin_connection(&mut router, &missing, local(1)), ConnectionPlan::Reject));
}
