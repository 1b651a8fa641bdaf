use simple_gateway::cache::Cache;
use simple_gateway::gateway::{
    authorize,
    backend_failure_status, begin_users_request, cached_users, complete_users_fetch, login, record_api_call, remember_users, BackendFailure,
};
use simple_gateway::logging::{classify_status, level_of, LogClass, LogLevel};
use simple_gateway::message_queue::{
    field_value, plan_actions, worker_step, Message, MessageQueue, WorkerAction, API_CALLED,
    USER_LOGGED_IN,
};
use simple_gateway::rate_limiter::{
    admit_request, client_key, first_forwarded_entry, rate_limit_response, RateLimitGate,
};

fn fields(pairs: &[(&str, &str)]) -> Vec<(String, String)> {
    pairs.iter().map(|(k, v)| (k.to_string(), v.to_string())).collect()
}

#[test]
fn queue_is_first_in_first_out() {
    let mut q = MessageQueue::new();
    assert!(q.consume().is_none());
    q.publish_at("one", fields(&[("n", "1")]), "t1".to_string());
    q.publish("two", fields(&[("n", "2")]));
    q.publish_at("three", vec![], "t3".to_string());
    assert_eq!(q.len(), 3);
    let a = q.consume().unwrap();
    assert_eq!((a.event.as_str(), a.timestamp.as_str()), ("one", "t1"));
    assert_eq!(q.consume().unwrap().event, "two");
    assert_eq!(q.consume().unwrap().event, "three");
    assert!(q.consume().is_none());
}

#[test]
fn field_lookup_takes_first_match() {
    let d = fields(&[("a", "1"), ("b", "2"), ("a", "3")]);
    assert_eq!(field_value(&d, "a"), Some("1".to_string()));
    assert_eq!(field_value(&d, "b"), Some("2".to_string()));
    assert_eq!(field_value(&d, "c"), None);
}

fn msg(event: &str, data: Vec<(String, String)>) -> Message {
    Message { event: event.to_string(), data, timestamp: "t".to_string() }
}

#[test]
fn worker_plans_each_event() {
    let login = plan_actions(&msg(USER_LOGGED_IN, fields(&[("username", "alice")])));
    assert_eq!(login.len(), 3);
    assert!(matches!(&login[0], WorkerAction::SendWelcomeEmail(Some(u)) if u == "alice"));
    assert!(matches!(login[1], WorkerAction::UpdateLastLogin));
    assert!(matches!(login[2], WorkerAction::NotifyAdmin));
    let call = plan_actions(&msg(API_CALLED, fields(&[("endpoint", "/api/users")])));
    assert_eq!(call.len(), 1);
    assert!(matches!(&call[0], WorkerAction::LogApiCall(Some(e)) if e == "/api/users"));
    let other = plan_actions(&msg("reboot", vec![]));
    assert!(matches!(&other[0], WorkerAction::UnknownEvent(e) if e == "reboot"));
    let missing = plan_actions(&msg(API_CALLED, vec![]));
    assert!(matches!(&missing[0], WorkerAction::LogApiCall(None)));
}

#[test]
fn worker_step_drains_in_order() {
    let mut q = MessageQueue::new();
    assert!(worker_step(&mut q).is_none());
    record_api_call(&mut q, "/api/users");
    q.publish("other", vec![]);
    let (m, plan) = worker_step(&mut q).unwrap();
    assert_eq!(m.event, API_CALLED);
    assert!(matches!(&plan[0], WorkerAction::LogApiCall(Some(e)) if e == "/api/users"));
    let (m2, _) = worker_step(&mut q).unwrap();
    assert_eq!(m2.event, "other");
    assert!(worker_step(&mut q).is_none());
}

#[test]
fn login_publishes_only_on_success() {
    let mut q = MessageQueue::new();
    let users = simple_gateway::auth::default_users();
    let secret = simple_gateway::auth::DEFAULT_JWT_SECRET;
    assert_eq!(login(&mut q, &users, "alice", "wrong", secret), Err(401));
    assert_eq!(login(&mut q, &users, "bob", "password123", secret), Err(401));
    assert_eq!(q.len(), 0);
    let token = login(&mut q, &users, "alice", "password123", secret).unwrap();
    assert_eq!(token.split('.').count(), 3);
    let m = q.consume().unwrap();
    assert_eq!(m.event, USER_LOGGED_IN);
    assert_eq!(m.data.len(), 2);
    assert_eq!(m.data[0], ("username".to_string(), "alice".to_string()));
    assert_eq!(m.data[1].0, "timestamp");
}

#[test]
fn cache_entries_expire() {
    let mut c: Cache<u32> = Cache::new();
    assert!(c.get_at("k", 100).is_none());
    c.set_at("k", 7, 60, 100);
    assert_eq!(c.get_at("k", 100), Some(&7));
    assert_eq!(c.get_at("k", 159), Some(&7));
    assert_eq!(c.get_at("k", 160), None);
    assert_eq!(c.get_at("other", 100), None);
    c.set_at("k", 8, 10, 200);
    assert_eq!(c.get_at("k", 205), Some(&8));
    assert_eq!(c.get_at("k", 210), None);
}

#[test]
fn cache_with_clock() {
    let mut c: Cache<String> = Cache::new();
    assert!(c.set("k", "v".to_string(), 60));
    assert_eq!(c.get("k"), Some(&"v".to_string()));
    assert!(!c.set("k2", "w".to_string(), u64::MAX / 2));
    assert_eq!(c.get("k2"), None);
    assert!(c.set("k3", "x".to_string(), 0));
    assert_eq!(c.get("k3"), None);
}

#[test]
fn users_listing_is_cached() {
    let mut c: Cache<String> = Cache::new();
    assert!(cached_users(&c).is_none());
    remember_users(&mut c, "[1,2]".to_string());
    assert_eq!(cached_users(&c), Some(&"[1,2]".to_string()));
}

#[test]
fn backend_failures_map_to_statuses() {
    assert_eq!(backend_failure_status(BackendFailure::Unreachable), 503);
    assert_eq!(backend_failure_status(BackendFailure::BadBody), 500);
}

#[test]
fn status_classes() {
    assert!(matches!(classify_status(429), LogClass::RateLimited));
    assert!(matches!(classify_status(404), LogClass::ClientError));
    assert!(matches!(classify_status(400), LogClass::ClientError));
    assert!(matches!(classify_status(499), LogClass::ClientError));
    assert!(matches!(classify_status(500), LogClass::ServerError));
    assert!(matches!(classify_status(503), LogClass::ServerError));
    assert!(matches!(classify_status(200), LogClass::Normal));
    assert!(matches!(classify_status(302), LogClass::Normal));
    assert!(matches!(classify_status(600), LogClass::Normal));
    assert!(matches!(level_of(&LogClass::RateLimited), LogLevel::Warn));
    assert!(matches!(level_of(&LogClass::ClientError), LogLevel::Warn));
    assert!(matches!(level_of(&LogClass::ServerError), LogLevel::Error));
    assert!(matches!(level_of(&LogClass::Normal), LogLevel::Info));
}

#[test]
fn forwarded_header_first_entry() {
    assert_eq!(first_forwarded_entry("1.2.3.4, 5.6.7.8"), "1.2.3.4");
    assert_eq!(first_forwarded_entry("9.9.9.9"), "9.9.9.9");
    assert_eq!(first_forwarded_entry(""), "");
    assert_eq!(first_forwarded_entry(",x"), "");
}

#[test]
fn client_key_fallbacks() {
    assert_eq!(client_key(Some("10.0.0.1".into()), Some("1.1.1.1".into())), "10.0.0.1");
    assert_eq!(client_key(None, Some("1.1.1.1".into())), "1.1.1.1");
    assert_eq!(client_key(None, None), "127.0.0.1");
}

#[test]
fn gate_allows_ten_requests_per_client() {
    let mut gate = RateLimitGate::new();
    let a = "10.0.0.1".to_string();
    let b = "10.0.0.2".to_string();
    for _ in 0..10 {
        assert_eq!(gate.check(&a), Ok(()));
    }
    assert_eq!(gate.check(&a), Err(429));
    assert_eq!(gate.check(&b), Ok(()));
    assert_eq!(rate_limit_response(true), Ok(()));
    assert_eq!(rate_limit_response(false), Err(429));
}

#[test]
fn bearer_header_parsing() {
    assert_eq!(simple_gateway::gateway::bearer_token("Bearer abc.def"), Some("abc.def"));
    assert_eq!(simple_gateway::gateway::bearer_token("Bearer "), Some(""));
    assert_eq!(simple_gateway::gateway::bearer_token("Basic abc"), None);
    assert_eq!(simple_gateway::gateway::bearer_token("Bearer"), None);
    assert_eq!(simple_gateway::gateway::bearer_token(""), None);
}

#[test]
fn authorize_checks_the_bearer_token() {
    let secret = simple_gateway::auth::DEFAULT_JWT_SECRET;
    assert!(matches!(authorize(None, secret), Err(401)));
    assert!(matches!(authorize(Some("Basic x"), secret), Err(401)));
    assert!(matches!(authorize(Some("Bearer invalid.token.here"), secret), Err(401)));
    let token = simple_gateway::auth::generate_token("alice");
    let header = format!("Bearer {}", token);
    assert!(matches!(authorize(Some(&header), "other-key"), Err(401)));
    let claims = authorize(Some(&header), secret).unwrap();
    assert_eq!(claims.sub, "alice");
}

#[test]
fn api_call_payload_is_endpoint_then_timestamp() {
    let mut q = MessageQueue::new();
    record_api_call(&mut q, "/api/users");
    let m = q.consume().unwrap();
    assert_eq!(m.event, API_CALLED);
    assert_eq!(m.data.len(), 2);
    assert_eq!(m.data[0], ("endpoint".to_string(), "/api/users".to_string()));
    assert_eq!(m.data[1].0, "timestamp");
}

#[test]
fn users_request_steps() {
    let mut q = MessageQueue::new();
    let mut c: Cache<String> = Cache::new();
    assert!(begin_users_request(&mut q, &c).is_none());
    assert_eq!(q.len(), 1);
    assert_eq!(complete_users_fetch(&mut c, Err(BackendFailure::Unreachable)), Err(503));
    assert!(cached_users(&c).is_none());
    assert_eq!(complete_users_fetch(&mut c, Err(BackendFailure::BadBody)), Err(500));
    assert_eq!(complete_users_fetch(&mut c, Ok("[3]".to_string())), Ok(()));
    assert_eq!(begin_users_request(&mut q, &c), Some(&"[3]".to_string()));
    assert_eq!(q.len(), 2);
}

#[test]
fn admit_request_counts_against_the_resolved_client() {
    let mut gate = RateLimitGate::new();
    for _ in 0..10 {
        assert_eq!(admit_request(&mut gate, None, None), Ok(()));
    }
    assert_eq!(admit_request(&mut gate, None, None), Err(429));
    assert_eq!(gate.check(&"127.0.0.1".to_string()), Err(429));
    assert_eq!(admit_request(&mut gate, None, Some("8.8.8.8".into())), Ok(()));
    assert_eq!(admit_request(&mut gate, Some("127.0.0.1".into()), Some("8.8.8.8".into())), Err(429));
}
