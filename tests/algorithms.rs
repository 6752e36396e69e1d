use rustlb::addr::SocketAddress;
use rustlb::algorithms::{IpHash, LeastConnections, RoundRobin, ServerInfo, Weighted};

fn local(port: u16) -> SocketAddress {
    SocketAddress::v4(127, 0, 0, 1, port)
}

fn test_servers() -> Vec<ServerInfo> {
    vec![
        ServerInfo { address: local(8001), weight: 1 },
        ServerInfo { address: local(8002), weight: 1 },
        ServerInfo { address: local(8003), weight: 1 },
    ]
}

#[test]
fn ip_hash_test_ip_hash_consistency() {
    let ip_hash = IpHash::new();
    let servers = test_servers();
    let client = SocketAddress::v4(192, 168, 1, 100, 12345);
    let s1 = ip_hash.select(&servers, Some(client)).unwrap();
    let s2 = ip_hash.select(&servers, Some(client)).unwrap();
    let s3 = ip_hash.select(&servers, Some(client)).unwrap();
    assert_eq!(s1, s2);
    assert_eq!(s2, s3);
}

#[test]
fn test_ip_hash_different_ports_same_server() {
    let ip_hash = IpHash::new();
    let servers = test_servers();
    let client1 = SocketAddress::v4(192, 168, 1, 100, 12345);
    let client2 = SocketAddress::v4(192, 168, 1, 100, 54321);
    let s1 = ip_hash.select(&servers, Some(client1)).unwrap();
    let s2 = ip_hash.select(&servers, Some(client2)).unwrap();
    assert_eq!(s1, s2);
}

#[test]
fn test_ip_hash_different_ips() {
    let ip_hash = IpHash::new();
    let servers = test_servers();
    let client1 = SocketAddress::v4(192, 168, 1, 100, 12345);
    let client2 = SocketAddress::v4(192, 168, 1, 101, 12345);
    let s1 = ip_hash.select(&servers, Some(client1)).unwrap();
    let s2 = ip_hash.select(&servers, Some(client2)).unwrap();
    let s1_again = ip_hash.select(&servers, Some(client1)).unwrap();
    let s2_again = ip_hash.select(&servers, Some(client2)).unwrap();
    assert_eq!(s1, s1_again);
    assert_eq!(s2, s2_again);
}

#[test]
fn test_ip_hash_no_client() {
    let ip_hash = IpHash::new();
    let servers = test_servers();
    let selected = ip_hash.select(&servers, None).unwrap();
    assert_eq!(selected, servers[0].address);
}

#[test]
fn test_ip_hash_empty() {
    let ip_hash = IpHash::new();
    assert!(ip_hash.select(&[], None).is_none());
}

#[test]
fn ip_hash_index_is_hash_modulo_pool_size() {
    let ip_hash = IpHash::new();
    let servers = test_servers();
    let client = SocketAddress::v4(10, 1, 2, 3, 4000);
    let h = ip_hash.hash_client(client);
    let expected = servers[(h % 3) as usize].address;
    assert_eq!(ip_hash.select(&servers, Some(client)), Some(expected));
}

#[test]
fn ip_hash_v6_clients_are_stable() {
    let ip_hash = IpHash::new();
    let servers = test_servers();
    let a = SocketAddress::v6(0x2001_0db8_0000_0000_0000_0000_0000_0001, 1000);
    let b = SocketAddress::v6(0x2001_0db8_0000_0000_0000_0000_0000_0001, 2000);
    assert_eq!(ip_hash.select(&servers, Some(a)), ip_hash.select(&servers, Some(b)));
}

#[test]
fn test_least_conn_selects_lowest() {
    let mut lc = LeastConnections::new();
    let servers = test_servers();
    lc.on_connect(servers[0].address);
    lc.on_connect(servers[0].address);
    lc.on_connect(servers[1].address);
    let selected = lc.select(&servers, None).unwrap();
    assert_eq!(selected, servers[2].address);
}

#[test]
fn test_least_conn_connection_tracking() {
    let mut lc = LeastConnections::new();
    let server = local(8001);
    assert_eq!(lc.connection_count(server), 0);
    lc.on_connect(server);
    assert_eq!(lc.connection_count(server), 1);
    lc.on_connect(server);
    assert_eq!(lc.connection_count(server), 2);
    lc.on_disconnect(server);
    assert_eq!(lc.connection_count(server), 1);
    lc.on_disconnect(server);
    assert_eq!(lc.connection_count(server), 0);
    lc.on_disconnect(server);
    assert_eq!(lc.connection_count(server), 0);
}

#[test]
fn test_least_conn_empty() {
    let lc = LeastConnections::new();
    assert!(lc.select(&[], None).is_none());
}

#[test]
fn test_least_conn_equal_connections() {
    let lc = LeastConnections::new();
    let servers = test_servers();
    let selected = lc.select(&servers, None).unwrap();
    assert_eq!(selected, servers[0].address);
}

#[test]
fn least_conn_tie_goes_to_pool_order() {
    let mut lc = LeastConnections::new();
    let servers = test_servers();
    lc.on_connect(servers[0].address);
    assert_eq!(lc.select(&servers, None), Some(servers[1].address));
    lc.on_connect(servers[1].address);
    assert_eq!(lc.select(&servers, None), Some(servers[2].address));
    lc.on_connect(servers[2].address);
    assert_eq!(lc.select(&servers, None), Some(servers[0].address));
    lc.on_disconnect(servers[2].address);
    assert_eq!(lc.select(&servers, None), Some(servers[2].address));
}

#[test]
fn least_conn_disconnect_of_unknown_server_is_ignored() {
    let mut lc = LeastConnections::new();
    lc.on_disconnect(local(9999));
    assert_eq!(lc.connection_count(local(9999)), 0);
}

#[test]
fn test_round_robin_cycles() {
    let mut rr = RoundRobin::new();
    let servers = test_servers();
    let s1 = rr.select(&servers, None).unwrap();
    let s2 = rr.select(&servers, None).unwrap();
    let s3 = rr.select(&servers, None).unwrap();
    let s4 = rr.select(&servers, None).unwrap();
    assert_eq!(s1, servers[0].address);
    assert_eq!(s2, servers[1].address);
    assert_eq!(s3, servers[2].address);
    assert_eq!(s4, servers[0].address);
}

#[test]
fn test_round_robin_empty() {
    let mut rr = RoundRobin::new();
    assert!(rr.select(&[], None).is_none());
}

#[test]
fn round_robin_each_server_k_times() {
    let mut rr = RoundRobin::new();
    let servers = test_servers();
    let mut counts = [0u32; 3];
    for _ in 0..(3 * 7) {
        let a = rr.select(&servers, None).unwrap();
        let i = servers.iter().position(|s| s.address == a).unwrap();
        counts[i] += 1;
    }
    assert_eq!(counts, [7, 7, 7]);
}

#[test]
fn round_robin_replay_is_identical() {
    let servers = test_servers();
    let mut a = RoundRobin::new();
    let mut b = RoundRobin::new();
    let first: Vec<_> = (0..10).map(|_| a.select(&servers, None)).collect();
    let second: Vec<_> = (0..10).map(|_| b.select(&servers, None)).collect();
    assert_eq!(first, second);
}

#[test]
fn test_weighted_distribution() {
    let mut weighted = Weighted::new();
    let servers = vec![
        ServerInfo { address: local(8001), weight: 3 },
        ServerInfo { address: local(8002), weight: 1 },
    ];
    let mut s1_count = 0u32;
    let mut s2_count = 0u32;
    for _ in 0..400 {
        let selected = weighted.select(&servers, None).unwrap();
        if selected == servers[0].address {
            s1_count += 1;
        } else if selected == servers[1].address {
            s2_count += 1;
        }
    }
    assert_eq!(s1_count, 300);
    assert_eq!(s2_count, 100);
}

#[test]
fn test_weighted_equal_weights() {
    let mut weighted = Weighted::new();
    let servers = vec![
        ServerInfo { address: local(8001), weight: 1 },
        ServerInfo { address: local(8002), weight: 1 },
    ];
    let s1 = weighted.select(&servers, None).unwrap();
    let s2 = weighted.select(&servers, None).unwrap();
    let s3 = weighted.select(&servers, None).unwrap();
    assert_eq!(s1, servers[0].address);
    assert_eq!(s2, servers[1].address);
    assert_eq!(s3, servers[0].address);
}

#[test]
fn test_weighted_empty() {
    let mut weighted = Weighted::new();
    assert!(weighted.select(&[], None).is_none());
}

#[test]
fn test_weighted_zero_weights() {
    let mut weighted = Weighted::new();
    let servers = vec![ServerInfo { address: local(8001), weight: 0 }];
    assert!(weighted.select(&servers, None).is_none());
}

#[test]
fn weighted_sequence_follows_cumulative_weights() {
    let mut weighted = Weighted::new();
    let servers = vec![
        ServerInfo { address: local(9001), weight: 2 },
        ServerInfo { address: local(9002), weight: 0 },
        ServerInfo { address: local(9003), weight: 3 },
    ];
    let ports: Vec<u16> = (0..10).map(|_| weighted.select(&servers, None).unwrap().port).collect();
    assert_eq!(ports, vec![9001, 9001, 9003, 9003, 9003, 9001, 9001, 9003, 9003, 9003]);
}

#[test]
fn weighted_replay_is_identical() {
    let servers = vec![
        ServerInfo { address: local(9001), weight: 5 },
        ServerInfo { address: local(9002), weight: 2 },
    ];
    let mut a = Weighted::new();
    let mut b = Weighted::new();
    let first: Vec<_> = (0..21).map(|_| a.select(&servers, None)).collect();
    let second: Vec<_> = (0..21).map(|_| b.select(&servers, None)).collect();
    assert_eq!(first, second);
}
