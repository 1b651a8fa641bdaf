use simple_gateway::consul_discovery::{
    discover_services, entry_is_passing, instance_from_entry, instances_from_entries, push_decimal,
    ConsulEntry, USERS_SERVICE,
};
use simple_gateway::service_registry::{LoadBalancingStrategy, ServiceInstance, ServiceRegistry};

fn inst(id: &str, healthy: bool, connections: usize) -> ServiceInstance {
    ServiceInstance {
        id: id.to_string(),
        url: format!("http://{}", id),
        healthy,
        connections,
    }
}

fn pick(r: &mut ServiceRegistry, s: LoadBalancingStrategy) -> Option<String> {
    r.select_instance("users", s).map(|i| i.id)
}

#[test]
fn unknown_service_selects_nothing() {
    let mut r = ServiceRegistry::new();
    assert!(r.select_instance("users", LoadBalancingStrategy::RoundRobin).is_none());
    assert!(r.select_instance("users", LoadBalancingStrategy::Random).is_none());
    assert!(r.select_instance("users", LoadBalancingStrategy::LeastConnections).is_none());
}

#[test]
fn empty_or_unhealthy_service_selects_nothing() {
    let mut r = ServiceRegistry::new();
    r.register("users", vec![]);
    assert!(pick(&mut r, LoadBalancingStrategy::RoundRobin).is_none());
    r.register("users", vec![inst("a", false, 0), inst("b", false, 0)]);
    assert!(pick(&mut r, LoadBalancingStrategy::RoundRobin).is_none());
    assert!(pick(&mut r, LoadBalancingStrategy::Random).is_none());
    assert!(pick(&mut r, LoadBalancingStrategy::LeastConnections).is_none());
}

#[test]
fn round_robin_cycles_over_healthy_instances() {
    let mut r = ServiceRegistry::new();
    r.register("users", vec![inst("a", true, 0), inst("b", false, 0), inst("c", true, 0)]);
    let seen: Vec<String> = (0..5).map(|_| pick(&mut r, LoadBalancingStrategy::RoundRobin).unwrap()).collect();
    assert_eq!(seen, vec!["a", "c", "a", "c", "a"]);
}

#[test]
fn register_restarts_rotation() {
    let mut r = ServiceRegistry::new();
    r.register("users", vec![inst("a", true, 0), inst("b", true, 0)]);
    assert_eq!(pick(&mut r, LoadBalancingStrategy::RoundRobin).unwrap(), "a");
    r.register("users", vec![inst("x", true, 0), inst("y", true, 0), inst("z", true, 0)]);
    assert_eq!(pick(&mut r, LoadBalancingStrategy::RoundRobin).unwrap(), "x");
    assert_eq!(pick(&mut r, LoadBalancingStrategy::RoundRobin).unwrap(), "y");
}

#[test]
fn stale_cursor_wraps_after_instances_go_down() {
    let mut r = ServiceRegistry::new();
    r.register("users", vec![inst("a", true, 0), inst("b", true, 0), inst("c", true, 0)]);
    assert_eq!(pick(&mut r, LoadBalancingStrategy::RoundRobin).unwrap(), "a");
    assert_eq!(pick(&mut r, LoadBalancingStrategy::RoundRobin).unwrap(), "b");
    r.mark_unhealthy("users", "c");
    // The cursor stands at 2; with two healthy instances it wraps to index 0.
    assert_eq!(pick(&mut r, LoadBalancingStrategy::RoundRobin).unwrap(), "a");
    assert_eq!(pick(&mut r, LoadBalancingStrategy::RoundRobin).unwrap(), "b");
}

#[test]
fn least_connections_takes_first_minimum() {
    let mut r = ServiceRegistry::new();
    r.register(
        "users",
        vec![inst("a", true, 5), inst("b", true, 2), inst("c", false, 0), inst("d", true, 2)],
    );
    assert_eq!(pick(&mut r, LoadBalancingStrategy::LeastConnections).unwrap(), "b");
    // Least-connections does not move the round-robin cursor.
    assert_eq!(pick(&mut r, LoadBalancingStrategy::RoundRobin).unwrap(), "a");
}

#[test]
fn random_picks_a_healthy_instance() {
    let mut r = ServiceRegistry::new();
    r.register("users", vec![inst("a", true, 0), inst("b", false, 0), inst("c", true, 0)]);
    for _ in 0..50 {
        let id = pick(&mut r, LoadBalancingStrategy::Random).unwrap();
        assert!(id == "a" || id == "c");
    }
}

#[test]
fn marked_instance_is_never_selected() {
    let mut r = ServiceRegistry::new();
    r.register("users", vec![inst("a", true, 0), inst("b", true, 9)]);
    r.mark_unhealthy("users", "a");
    for _ in 0..4 {
        assert_eq!(pick(&mut r, LoadBalancingStrategy::RoundRobin).unwrap(), "b");
        assert_eq!(pick(&mut r, LoadBalancingStrategy::LeastConnections).unwrap(), "b");
        assert_eq!(pick(&mut r, LoadBalancingStrategy::Random).unwrap(), "b");
    }
    r.mark_unhealthy("users", "b");
    assert!(pick(&mut r, LoadBalancingStrategy::RoundRobin).is_none());
}

#[test]
fn mark_unhealthy_of_unknown_service_changes_nothing() {
    let mut r = ServiceRegistry::new();
    r.register("users", vec![inst("a", true, 0)]);
    r.mark_unhealthy("orders", "a");
    r.mark_unhealthy("users", "zzz");
    assert_eq!(pick(&mut r, LoadBalancingStrategy::RoundRobin).unwrap(), "a");
}

#[test]
fn selected_instance_is_a_full_copy() {
    let mut r = ServiceRegistry::new();
    r.register("users", vec![inst("a", true, 7)]);
    let i = r.select_instance("users", LoadBalancingStrategy::RoundRobin).unwrap();
    assert_eq!(i.id, "a");
    assert_eq!(i.url, "http://a");
    assert!(i.healthy);
    assert_eq!(i.connections, 7);
}

fn entry(statuses: Vec<Option<&str>>, id: Option<&str>, address: Option<&str>, port: Option<u64>) -> ConsulEntry {
    ConsulEntry {
        check_statuses: statuses.into_iter().map(|s| s.map(|x| x.to_string())).collect(),
        service_id: id.map(|s| s.to_string()),
        address: address.map(|s| s.to_string()),
        port,
    }
}

#[test]
fn decimal_text() {
    for n in [0u64, 7, 10, 8001, 65535, u64::MAX] {
        let mut s = String::from("p=");
        push_decimal(&mut s, n);
        assert_eq!(s, format!("p={}", n));
    }
}

#[test]
fn consul_entry_to_instance() {
    let i = instance_from_entry(&entry(vec![Some("passing")], Some("users-1"), Some("10.0.0.5"), Some(8002)));
    assert_eq!(i.id, "users-1");
    assert_eq!(i.url, "http://10.0.0.5:8002");
    assert!(i.healthy);
    assert_eq!(i.connections, 0);
    let d = instance_from_entry(&entry(vec![], None, None, None));
    assert_eq!(d.id, "");
    assert_eq!(d.url, "http://127.0.0.1:8001");
}

#[test]
fn consul_checks_must_all_pass() {
    assert!(entry_is_passing(&entry(vec![], None, None, None)));
    assert!(entry_is_passing(&entry(vec![Some("passing"), Some("passing")], None, None, None)));
    assert!(!entry_is_passing(&entry(vec![Some("passing"), Some("critical")], None, None, None)));
    assert!(!entry_is_passing(&entry(vec![None], None, None, None)));
}

#[test]
fn discovery_registers_passing_entries_only() {
    let entries = vec![
        entry(vec![Some("passing")], Some("u1"), Some("10.0.0.1"), Some(9000)),
        entry(vec![Some("warning")], Some("u2"), Some("10.0.0.2"), Some(9000)),
        entry(vec![Some("passing")], Some("u3"), Some("10.0.0.3"), Some(9001)),
    ];
    let list = instances_from_entries(&entries);
    let ids: Vec<&str> = list.iter().map(|i| i.id.as_str()).collect();
    assert_eq!(ids, vec!["u1", "u3"]);
    let mut r = ServiceRegistry::new();
    assert!(discover_services(&mut r, &entries));
    let i = r.select_instance(USERS_SERVICE, LoadBalancingStrategy::RoundRobin).unwrap();
    assert_eq!(i.url, "http://10.0.0.1:9000");
}

#[test]
fn discovery_without_healthy_entries_keeps_registry() {
    let mut r = ServiceRegistry::new();
    r.register("users", vec![inst("old", true, 0)]);
    let entries = vec![entry(vec![Some("critical")], Some("u1"), None, None)];
    assert!(!discover_services(&mut r, &entries));
    assert_eq!(pick(&mut r, LoadBalancingStrategy::RoundRobin).unwrap(), "old");
}
