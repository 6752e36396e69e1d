use rustlb::addr::SocketAddress;
use rustlb::health::{HealthConfig, HealthState};

fn local(port: u16) -> SocketAddress {
    SocketAddress::v4(127, 0, 0, 1, port)
}

#[test]
fn test_server_starts_healthy() {
    let mut state = HealthState::new();
    let server = local(8001);
    state.register_server(server);
    assert!(state.is_healthy(server));
}

#[test]
fn test_failures_mark_unhealthy() {
    let config = HealthConfig { unhealthy_threshold: 3, healthy_threshold: 2, cooldown_ms: 1_000 };
    let mut state = HealthState::with_config(config);
    let server = local(8001);
    state.register_server(server);
    state.record_failure(server);
    assert!(state.is_healthy(server));
    state.record_failure(server);
    assert!(state.is_healthy(server));
    state.record_failure(server);
    assert!(!state.is_healthy(server));
}

#[test]
fn test_successes_mark_healthy() {
    let config = HealthConfig { unhealthy_threshold: 1, healthy_threshold: 2, cooldown_ms: 1 };
    let mut state = HealthState::with_config(config);
    let server = local(8001);
    state.register_server(server);
    state.record_failure(server);
    assert!(!state.is_healthy(server));
    state.record_success(server);
    assert!(!state.is_healthy(server));
    state.record_success(server);
    assert!(state.is_healthy(server));
}

#[test]
fn state_test_success_resets_failures() {
    let config = HealthConfig { unhealthy_threshold: 3, healthy_threshold: 2, cooldown_ms: 1_000 };
    let mut state = HealthState::with_config(config);
    let server = local(8001);
    state.register_server(server);
    state.record_failure(server);
    state.record_failure(server);
    assert!(state.is_healthy(server));
    state.record_success(server);
    state.record_failure(server);
    state.record_failure(server);
    assert!(state.is_healthy(server));
    state.record_failure(server);
    assert!(!state.is_healthy(server));
}

#[test]
fn state_test_connection_tracking() {
    let mut state = HealthState::new();
    let server = local(8001);
    state.register_server(server);
    assert_eq!(state.get_connections(server), 0);
    state.increment_connections(server);
    assert_eq!(state.get_connections(server), 1);
    state.increment_connections(server);
    assert_eq!(state.get_connections(server), 2);
    state.decrement_connections(server);
    assert_eq!(state.get_connections(server), 1);
}

#[test]
fn test_filter_healthy() {
    let config = HealthConfig { unhealthy_threshold: 1, healthy_threshold: 2, cooldown_ms: 60_000 };
    let mut state = HealthState::with_config(config);
    let s1 = local(8001);
    let s2 = local(8002);
    let s3 = local(8003);
    state.register_server(s1);
    state.register_server(s2);
    state.register_server(s3);
    state.record_failure(s2);
    let healthy = state.filter_healthy(&[s1, s2, s3]);
    assert_eq!(healthy.len(), 2);
    assert!(healthy.contains(&s1));
    assert!(healthy.contains(&s3));
    assert!(!healthy.contains(&s2));
}

#[test]
fn test_health_state() {
    let config = HealthConfig { unhealthy_threshold: 2, healthy_threshold: 2, cooldown_ms: 100 };
    let mut state = HealthState::with_config(config);
    let server = local(8000);
    state.register_server(server);
    assert!(state.is_healthy(server));
    state.record_failure(server);
    assert!(state.is_healthy(server));
    state.record_failure(server);
    assert!(!state.is_healthy(server));
    state.record_success(server);
    assert!(!state.is_healthy(server));
    state.record_success(server);
    assert!(state.is_healthy(server));
}

#[test]
fn cooldown_window_at_given_times() {
    let config = HealthConfig { unhealthy_threshold: 2, healthy_threshold: 2, cooldown_ms: 30_000 };
    let mut state = HealthState::with_config(config);
    let server = local(8000);
    state.record_failure_at(server, 1_000);
    state.record_failure_at(server, 1_001);
    assert!(!state.is_healthy(server));
    assert!(state.is_in_cooldown_at(server, 1_001));
    assert!(state.is_in_cooldown_at(server, 1_030));
    assert!(!state.is_in_cooldown_at(server, 1_031));
    assert_eq!(state.filter_healthy_at(&[server, local(1)], 1_031), vec![local(1)]);
    state.record_success_at(server, 1_040);
    state.record_success_at(server, 1_041);
    assert!(state.is_healthy(server));
    assert!(!state.is_in_cooldown_at(server, 1_041));
}

#[test]
fn unknown_server_is_healthy_and_not_cooling() {
    let state = HealthState::new();
    assert!(state.is_healthy(local(1)));
    assert!(!state.is_in_cooldown(local(1)));
    assert_eq!(state.get_connections(local(1)), 0);
    assert_eq!(state.get_failures(local(1)), 0);
}

#[test]
fn connection_count_never_below_zero() {
    let mut state = HealthState::new();
    let server = local(8001);
    state.register_server(server);
    state.decrement_connections(server);
    state.decrement_connections(server);
    assert_eq!(state.get_connections(server), 0);
    state.increment_connections(server);
    assert_eq!(state.get_connections(server), 1);
}

#[test]
fn success_clears_failure_streak() {
    let mut state = HealthState::new();
    let server = local(8001);
    state.record_failure(server);
    state.record_failure(server);
    assert_eq!(state.get_failures(server), 2);
    state.record_success(server);
    assert_eq!(state.get_failures(server), 0);
}

#[test]
fn mark_and_reset() {
    let mut state = HealthState::new();
    let server = local(8001);
    state.mark_unhealthy(server);
    assert!(state.is_healthy(server));
    state.register_server(server);
    state.mark_unhealthy_at(server, 500);
    assert!(!state.is_healthy(server));
    assert!(state.is_in_cooldown_at(server, 510));
    state.reset_server(server);
    assert!(state.is_healthy(server));
    assert!(!state.is_in_cooldown_at(server, 510));
    let all = state.get_all_status();
    assert_eq!(all, vec![(server, true, 0, 0)]);
}

#[test]
fn fresh_failure_starts_cooldown_now() {
    let config = HealthConfig { unhealthy_threshold: 1, healthy_threshold: 1, cooldown_ms: 3_600_000 };
    let mut state = HealthState::with_config(config);
    let server = local(8005);
    state.record_failure(server);
    assert!(!state.is_healthy(server));
    assert!(state.is_in_cooldown(server));
    assert!(state.filter_healthy(&[server]).is_empty());
}
