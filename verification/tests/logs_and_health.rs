use std::collections::hash_map::DefaultHasher;
use std::hash::{Hash, Hasher};

use projektil_control::health;
use projektil_control::health::{AnswerStore, ConnectionPool, ErrorCategory, HealthTable, RateLimiter};
use projektil_control::json::Json;
use projektil_control::logs;
use projektil_control::logs::{AppLogEntry, ConfigVersion, ConfigVersions, PruneGate};

fn entry(timestamp_ms: u64, message: &str) -> AppLogEntry {
    AppLogEntry { timestamp_ms, level: "info".to_string(), message: message.to_string() }
}

fn order(list: &Vec<AppLogEntry>) -> Vec<String> {
    list.iter().map(|e| e.message.clone()).collect()
}

fn version(hash: &str) -> ConfigVersion {
    ConfigVersion { timestamp_ms: 0, version_num: 1, hash: hash.to_string(), backup_path: String::new() }
}

#[test]
fn log_entries_take_one_line() {
    let e = logs::clean_entry("ERROR", "a\r\nb", 7);
    assert_eq!((e.timestamp_ms, e.level.as_str(), e.message.as_str()), (7, "error", "a  b"));
    assert!(logs::goes_to_error_log(&e));
    let e = logs::clean_entry("debug", "x", 7);
    assert_eq!(e.level, "info");
    assert!(!logs::goes_to_error_log(&e));
}

#[test]
fn panics_say_where() {
    assert_eq!(
        logs::panic_message(&Some("boom".to_string()), &Some("a.rs:3".to_string())),
        "PANIC: boom @ a.rs:3"
    );
    assert_eq!(logs::panic_message(&None, &None), "PANIC: Unbekannter Panic-Fehler @ unbekannter Ort");
}

#[test]
fn entries_are_kept_for_ninety_days() {
    let now = 90 * 24 * 60 * 60 * 1000 + 500;
    assert_eq!(logs::cutoff_timestamp_ms(now), 500);
    assert_eq!(logs::cutoff_timestamp_ms(3), 0);
    let kept = logs::keep_recent(&vec![entry(499, "a"), entry(500, "b"), entry(501, "c")], 500);
    assert_eq!(order(&kept), vec!["b", "c"]);
}

#[test]
fn pruning_is_due_twice_a_day() {
    let mut gate = PruneGate::new();
    assert!(!gate.due(43_199_999));
    assert!(gate.due(43_200_000));
    assert!(!gate.due(43_200_001));
    assert!(gate.due(86_400_000));
}

#[test]
fn large_logs_are_rotated_and_old_ones_packed() {
    assert!(!logs::needs_rotation(52_428_800));
    assert!(logs::needs_rotation(52_428_801));
    assert_eq!(logs::rotated_name("system.log", "20260101_000000"), "system.log.20260101_000000");
    let log = Some("log".to_string());
    let week = 7 * 24 * 60 * 60 * 1000;
    assert!(logs::should_compress(&log, "/l/a.log", week + 2, 1));
    assert!(!logs::should_compress(&log, "/l/a.log", week + 1, 1));
    assert!(!logs::should_compress(&Some("gz".to_string()), "/l/a.gz", week + 2, 1));
    assert!(!logs::should_compress(&None, "/l/a", week + 2, 1));
    assert_eq!(logs::compressed_name("/l/a.log"), "/l/a.log.gz");
}

#[test]
fn newest_entries_come_first_and_equals_keep_their_order() {
    let list = vec![entry(1, "a"), entry(3, "b"), entry(1, "c"), entry(2, "d")];
    assert_eq!(order(&logs::sort_and_limit(&list, None)), vec!["b", "d", "a", "c"]);
    assert_eq!(order(&logs::sort_and_limit(&list, Some(2))), vec!["b", "d"]);
    let r = logs::logs_response(&list, &vec![entry(5, "e")], Some(1));
    let system = r.get("system").unwrap().as_array().unwrap();
    assert_eq!((system.len(), system[0].text_field("message")), (1, Some("b")));
    let errors = r.get("errors").unwrap().as_array().unwrap();
    assert_eq!(errors[0].integer_field("timestamp_ms"), Some(5));
    assert_eq!(errors[0].text_field("level"), Some("info"));
}

#[test]
fn no_more_than_fifty_versions_are_remembered() {
    let mut v = ConfigVersions::new();
    assert!(v.is_new("a"));
    assert_eq!(v.next_number(), 1);
    v.record(version("a"));
    assert!(!v.is_new("a") && v.is_new("b"));
    for i in 0..60 {
        v.record(version(&format!("h{}", i)));
    }
    assert_eq!(v.list.len(), 50);
    assert_eq!(v.next_number(), 51);
    assert_eq!(v.list[0].hash, "h10");
    assert_eq!(logs::hash_mark(255), "ff");
    let mut hasher = DefaultHasher::new();
    "{\"a\": 1}".hash(&mut hasher);
    assert_eq!(logs::content_mark("{\"a\": 1}"), format!("{:x}", hasher.finish()));
    assert_ne!(logs::content_mark("{\"a\": 1}"), logs::content_mark("{\"a\": 2}"));
    assert_eq!(logs::backup_name(3, "S"), "config.v3.S.json");
}

#[test]
fn categories_have_names() {
    let cases = [
        (ErrorCategory::ConnectionTimeout, "CONNECTION_TIMEOUT"),
        (ErrorCategory::DeviceOffline, "DEVICE_OFFLINE"),
        (ErrorCategory::InvalidResponse, "INVALID_RESPONSE"),
        (ErrorCategory::AuthenticationFailed, "AUTH_FAILED"),
        (ErrorCategory::ConfigurationError, "CONFIG_ERROR"),
        (ErrorCategory::InternalError, "INTERNAL_ERROR"),
    ];
    for (c, name) in cases {
        assert_eq!(c.as_str(), name);
    }
    assert_eq!(health::categorized(ErrorCategory::InternalError, "x"), "[INTERNAL_ERROR] x");
}

#[test]
fn third_failure_takes_a_device_offline() {
    let mut t = HealthTable::new();
    assert!(t.record_failure("ups:1", "e1", 10));
    assert!(t.record_failure("ups:1", "e2", 20));
    assert!(t.devices.get("ups:1").unwrap().is_online);
    assert!(t.record_failure("ups:1", "e3", 30));
    assert!(!t.devices.get("ups:1").unwrap().is_online);
    assert!(!t.record_failure("ups:1", "e4", 40));
    let d = t.devices.get("ups:1").unwrap();
    assert_eq!((d.consecutive_failures, d.last_seen_ms, d.last_error.as_deref()), (3, 10, Some("e4")));
    t.mark_device_online("ups:1", 50);
    let d = t.devices.get("ups:1").unwrap();
    assert_eq!((d.is_online, d.consecutive_failures, d.last_seen_ms, d.last_error.is_none()), (true, 0, 50, true));
}

#[test]
fn failures_are_reset_without_bringing_devices_back() {
    let mut t = HealthTable::new();
    for _ in 0..3 {
        t.record_failure("a", "e", 1);
    }
    t.reset_failures();
    let d = t.devices.get("a").unwrap();
    assert_eq!((d.is_online, d.consecutive_failures, d.last_error.is_none()), (false, 0, true));
    let list = t.report();
    let first = &list.as_array().unwrap()[0];
    assert_eq!(first.text_field("device_id"), Some("a"));
    assert_eq!(first.get("is_online"), Some(&Json::Bool(false)));
    assert!(first.get("last_error").unwrap().is_null());
}

#[test]
fn answers_are_reused_while_they_are_young() {
    let mut cache = AnswerStore::new();
    let fresh = cache.get_or_cache_query("k", 1_000, || Some(("v1".to_string(), 1_100)));
    assert_eq!(fresh.as_deref(), Some("v1"));
    assert_eq!(cache.get_or_cache_query("k", 31_099, || Some(("v2".to_string(), 0))).as_deref(), Some("v1"));
    assert_eq!(cache.get_or_cache_query("k", 31_100, || None), None);
    assert_eq!(cache.young("k", 31_099, health::QUERY_CACHE_TTL_MS).as_deref(), Some("v1"));
    cache.clear();
    assert_eq!(cache.young("k", 1_100, health::QUERY_CACHE_TTL_MS), None);
}

#[test]
fn repeated_requests_share_an_answer() {
    let mut dedup = AnswerStore::new();
    assert_eq!(dedup.get_deduplicated_request("a", 0, || Some("x".to_string())).as_deref(), Some("x"));
    assert_eq!(dedup.get_deduplicated_request("a", 4_999, || None).as_deref(), Some("x"));
    assert_eq!(dedup.get_deduplicated_request("b", 9_999, || Some("y".to_string())).as_deref(), Some("y"));
    assert!(dedup.answers.contains_key("a"));
    assert_eq!(dedup.get_deduplicated_request("c", 10_000, || Some("z".to_string())).as_deref(), Some("z"));
    assert!(!dedup.answers.contains_key("a"));
    assert_eq!(dedup.just_answered("c", 14_999).as_deref(), Some("z"));
    assert_eq!(dedup.just_answered("c", 15_000), None);
}

#[test]
fn a_hundred_requests_a_minute_are_served() {
    let mut limiter = RateLimiter::new();
    for i in 0..100 {
        assert_eq!(limiter.check_rate_limit("q", i), Ok(()));
    }
    assert_eq!(
        limiter.check_rate_limit("q", 100),
        Err("Rate limit exceeded for q: 100 requests/min".to_string())
    );
    assert_eq!(limiter.check_rate_limit("other", 100), Ok(()));
    assert_eq!(limiter.check_rate_limit("q", 60_000), Ok(()));
}

#[test]
fn connections_are_reused_for_five_minutes() {
    let mut pool = ConnectionPool::new();
    assert_eq!(pool.get_pooled_connection("h", 161, "snmp", 0), "snmp:h:161");
    pool.get_pooled_connection("h", 161, "snmp", 299_999);
    assert_eq!(pool.connections.get("snmp:h:161").unwrap().last_used_ms, 0);
    pool.get_pooled_connection("h", 161, "snmp", 300_000);
    assert_eq!(pool.connections.get("snmp:h:161").unwrap().last_used_ms, 300_000);
}

#[test]
fn known_answers_are_found_again() {
    let mut dedup = AnswerStore::new();
    let mut cache = AnswerStore::new();
    let key = Some("d".to_string());
    assert_eq!(health::known_answer(&dedup, &cache, &key, "c", 0), None);
    cache.store("c", "[1]", 0);
    assert_eq!(health::known_answer(&dedup, &cache, &key, "c", 1), Some(Json::List(vec![Json::Unsigned(1)])));
    dedup.store("d", "[2]", 0);
    assert_eq!(health::known_answer(&dedup, &cache, &key, "c", 1), Some(Json::List(vec![Json::Unsigned(2)])));
    assert_eq!(health::known_answer(&dedup, &cache, &None, "c", 1), Some(Json::List(vec![Json::Unsigned(1)])));
    dedup.store("d", "not json", 0);
    assert_eq!(health::known_answer(&dedup, &cache, &key, "c", 1), Some(Json::List(vec![Json::Unsigned(1)])));
    assert_eq!(health::stored_value(&Some("7".to_string())), Some(Json::Unsigned(7)));
    assert_eq!(health::readable(Err("e".to_string())), None);
}

#[test]
fn keys_name_device_and_access() {
    assert_eq!(health::device_key("ups", "10.0.0.1"), "ups:10.0.0.1");
    assert_eq!(health::snmp_cache_key("nas", "h", &None, None), "nas:h:public:161");
    assert_eq!(health::snmp_cache_key("nas", "h", &Some("c".to_string()), Some(5)), "nas:h:c:5");
}
