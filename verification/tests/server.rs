use fall::error::FallError;
use fall::health::{endpoint_health, modify_health, Health, HealthStatus};
use fall::names::NameMap;
use fall::server::{get_addr, set_config, Application, DefaultFallServer, DEFAULT_ADDRESS, DEFAULT_PORT};

fn app() -> Application {
    Application {
        name: "svc".to_string(),
        version: "1.0.0".to_string(),
        revision: Some("abc123".to_string()),
        commit_date: None,
        build_timestamp: None,
        build_target: Some("x86_64".to_string()),
    }
}

#[test]
fn address_defaults() {
    assert_eq!(DEFAULT_ADDRESS, "0.0.0.0");
    assert_eq!(DEFAULT_PORT, 8080);
    assert_eq!(get_addr(None, None), "0.0.0.0:8080");
}

#[test]
fn address_from_the_configuration() {
    assert_eq!(get_addr(Some("127.0.0.1"), None), "127.0.0.1:8080");
    assert_eq!(get_addr(None, Some(80)), "0.0.0.0:80");
    assert_eq!(get_addr(Some("localhost"), Some(9)), "localhost:9");
    assert_eq!(get_addr(Some("::1"), Some(443)), "::1:443");
    assert_eq!(get_addr(Some(""), Some(0)), ":0");
}

#[test]
fn ports_are_written_in_decimal() {
    for port in [0u16, 1, 9, 10, 11, 99, 100, 101, 999, 1000, 1001, 9999, 10000, 10001, 12345, 40000, 65535]
    {
        assert_eq!(get_addr(Some("h"), Some(port)), format!("h:{}", port));
    }
}

#[test]
fn configuration_overrides_name_and_version() {
    let mut a = app();
    set_config(&mut a, Some("other".to_string()), None);
    assert_eq!(a.name, "other");
    assert_eq!(a.version, "1.0.0");
    set_config(&mut a, None, Some("2.0.0".to_string()));
    assert_eq!(a.name, "other");
    assert_eq!(a.version, "2.0.0");
    set_config(&mut a, None, None);
    assert_eq!(a.name, "other");
    assert_eq!(a.version, "2.0.0");
    assert_eq!(a.revision, Some("abc123".to_string()));
    assert_eq!(a.build_target, Some("x86_64".to_string()));
    assert_eq!(a.commit_date, None);
}

#[test]
fn a_server_keeps_what_it_was_made_with() {
    let server = DefaultFallServer::new(config::Config::default(), app());
    assert_eq!(server.get_app().name, "svc");
    assert_eq!(server.get_app().version, "1.0.0");
    assert!(server.get_config().get_string("application.name").is_err());
}

#[test]
fn a_new_report_is_up() {
    let health = Health::new();
    assert_eq!(health.status, HealthStatus::UP);
    assert_eq!(health.err, None);
    assert_eq!(health.detail.len(), 0);
}

#[test]
fn a_check_that_passed_is_up() {
    let mut health = Health::new();
    modify_health(Ok(()), "redis".to_string(), &mut health);
    assert_eq!(health.status, HealthStatus::UP);
    assert_eq!(health.detail.len(), 1);
    let item = health.detail.get("redis").unwrap();
    assert_eq!(item.status, HealthStatus::UP);
    assert_eq!(item.err, None);
}

#[test]
fn a_check_that_failed_brings_the_service_down() {
    let mut health = Health::new();
    modify_health(Ok(()), "redis".to_string(), &mut health);
    modify_health(Err(FallError::bad_request("no connection")), "database".to_string(), &mut health);
    modify_health(Ok(()), "queue".to_string(), &mut health);
    assert_eq!(health.status, HealthStatus::DOWN);
    assert_eq!(health.err, None);
    assert_eq!(health.detail.len(), 3);
    let item = health.detail.get("database").unwrap();
    assert_eq!(item.status, HealthStatus::DOWN);
    assert_eq!(item.err, Some("no connection".to_string()));
    assert_eq!(health.detail.get("redis").unwrap().status, HealthStatus::UP);
    assert_eq!(health.detail.get("queue").unwrap().status, HealthStatus::UP);
    assert!(health.detail.get("other").is_none());
}

#[test]
fn a_later_outcome_replaces_an_earlier_one() {
    let mut health = Health::new();
    modify_health(Err(FallError::HTTP_ERROR(503, None)), "redis".to_string(), &mut health);
    modify_health(Ok(()), "redis".to_string(), &mut health);
    assert_eq!(health.detail.len(), 1);
    assert_eq!(health.detail.get("redis").unwrap().status, HealthStatus::UP);
    assert_eq!(health.status, HealthStatus::DOWN);
}

#[test]
fn the_report_of_all_checks() {
    let up = endpoint_health(vec![("a".to_string(), Ok(())), ("b".to_string(), Ok(()))]);
    assert_eq!(up.status, HealthStatus::UP);
    assert_eq!(up.detail.len(), 2);
    assert_eq!(up.detail.name_at(0), "a");
    assert_eq!(up.detail.name_at(1), "b");

    let down = endpoint_health(vec![
        ("a".to_string(), Ok(())),
        ("b".to_string(), Err(FallError::HTTP_ERROR(503, None))),
    ]);
    assert_eq!(down.status, HealthStatus::DOWN);
    assert_eq!(down.detail.get("a").unwrap().status, HealthStatus::UP);
    assert_eq!(down.detail.get("b").unwrap().status, HealthStatus::DOWN);
    assert_eq!(down.detail.get("b").unwrap().err, Some("503 Service Unavailable".to_string()));

    let none = endpoint_health(vec![]);
    assert_eq!(none.status, HealthStatus::UP);
    assert_eq!(none.detail.len(), 0);
}

#[test]
fn a_name_map_keeps_the_order_of_first_entry() {
    let mut m: NameMap<u32> = NameMap::new();
    assert_eq!(m.len(), 0);
    assert_eq!(m.get("a"), None);
    m.insert("b".to_string(), 1);
    m.insert("a".to_string(), 2);
    m.insert("b".to_string(), 3);
    assert_eq!(m.len(), 2);
    assert_eq!(m.name_at(0), "b");
    assert_eq!(*m.value_at(0), 3);
    assert_eq!(m.name_at(1), "a");
    assert_eq!(*m.value_at(1), 2);
    assert_eq!(m.get("b"), Some(&3));
    assert_eq!(m.position("a"), Some(1));
    assert_eq!(m.position("c"), None);
}
