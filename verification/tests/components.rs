use std::sync::Arc;
use std::time::{SystemTime, UNIX_EPOCH};

use bytes::Bytes;

use blipmq::admin::AdminManager;
use blipmq::batch::{BatchStats, Batcher};
use blipmq::collector::{MetricsCollector, TopicMetricsSnapshot};
use blipmq::connection::{ConnectionError, ConnectionLimits};
use blipmq::connections::{connection_id, ConnectionManager, ConnectionState};
use blipmq::delivery::{BatchConfig, DeliveryMode, PublisherConfig, SubscriberId};
use blipmq::fanout::{classify_delivery, shard_count, shard_for_hash, shard_index, shard_queue_capacity, should_deliver, DeliveryOutcome};
use blipmq::message::WireMessage;
use blipmq::monitoring::{
    connection_status, http_response, latency_status, memory_status, overall_health, route_request, HealthCheck,
    HealthStatus, MetricsRoute, SnapshotHistory,
};
use blipmq::queue::BlipError;
use blipmq::performance::PerformanceMetrics;
use blipmq::registry::TopicRegistry;
use blipmq::report::{busiest_topic, system_alerts, topic_message_total, AlertSeverity, SystemAlertKind};
use blipmq::shell::{parse_repl_line, split_words, ReplCommand};
use blipmq::shutdown::ShutdownPlan;
use blipmq::timer::TimerWheel;

fn now_ms() -> u64 {
    SystemTime::now().duration_since(UNIX_EPOCH).unwrap().as_millis() as u64
}

fn message(expire_at: u64) -> Arc<WireMessage> {
    Arc::new(WireMessage { frame: Bytes::from("test"), expire_at })
}

#[test]
fn test_timer_wheel_basic() {
    let mut wheel = TimerWheel::new();
    let now = wheel.current_time();
    let entry_id = wheel.insert(message(now + 100)).unwrap();
    assert!(entry_id > 0);
    assert_eq!(wheel.pending_count(), 1);
}

#[test]
fn test_timer_wheel_expiration() {
    let mut wheel = TimerWheel::new();
    let now = wheel.current_time();
    wheel.insert(message(now + 100)).unwrap();
    wheel.set_current_time(now + 200);
    let expired = wheel.tick();
    assert!(expired.len() <= 1);
}

#[test]
fn test_timer_wheel_no_ttl() {
    let mut wheel = TimerWheel::new();
    assert!(wheel.insert(message(0)).is_err());
}

#[test]
fn timer_wheel_expires_on_ticks() {
    let mut wheel = TimerWheel::new_at(1_000);
    assert_eq!(wheel.insert(message(1_050)), Ok(1));
    assert_eq!(wheel.insert(message(5_000)), Ok(2));
    assert_eq!(wheel.insert(message(900)), Err("Message already expired"));
    assert_eq!(wheel.pending_count(), 2);
    // Not past one resolution step yet.
    assert!(wheel.tick_at(1_005).is_empty());
    // Six steps of 10 ms reach the first message's slot.
    let expired = wheel.tick_at(1_060);
    assert_eq!(expired.len(), 1);
    assert_eq!(expired[0].expire_at, 1_050);
    assert_eq!(wheel.pending_count(), 1);
    assert_eq!(wheel.stats(), (2, 1, 0));
    wheel.clear();
    assert_eq!(wheel.pending_count(), 0);
}

#[test]
fn timer_wheel_returns_the_filed_message() {
    let mut wheel = TimerWheel::new_at(2_000);
    let m = message(2_100);
    wheel.insert(Arc::clone(&m)).unwrap();
    let expired = wheel.tick_at(2_200);
    assert_eq!(expired.len(), 1);
    assert!(Arc::ptr_eq(&expired[0], &m));
    assert!(wheel.tick_at(2_300).is_empty());
    assert_eq!(wheel.pending_count(), 0);
}

#[test]
fn batcher_flushes_by_size_timeout_and_close() {
    let config = BatchConfig { max_batch_size: 3, max_batch_delay_ms: 10, channel_capacity: 8 };
    let mut b: Batcher<u32> = Batcher::new_at(config, 0);
    assert!(b.on_item(1, 1).is_none());
    assert!(b.on_item(2, 2).is_none());
    let f = b.on_item(3, 3).unwrap();
    assert_eq!(f.items, vec![1, 2, 3]);
    assert!(!f.by_timeout);
    assert!(b.on_item(4, 5).is_none());
    assert!(b.on_tick(12).is_none());
    let f = b.on_tick(13).unwrap();
    assert_eq!(f.items, vec![4]);
    assert!(f.by_timeout);
    assert!(b.on_closed().is_none());
    b.on_item(5, 20);
    assert_eq!(b.on_closed().unwrap().items, vec![5]);
    let mut stats = BatchStats::new();
    stats.update(3, false, 2);
    stats.update(1, true, 1);
    assert_eq!(stats.total_batches, 2);
    assert_eq!(stats.total_items, 4);
    assert_eq!(stats.max_batch_size, 3);
    assert_eq!((stats.flush_by_size, stats.flush_by_timeout), (1, 1));
}

#[test]
fn shutdown_order_by_priority() {
    let mut plan = ShutdownPlan::new(30_000);
    plan.register_component("api".to_string(), 2);
    plan.register_component("wal".to_string(), 9);
    plan.register_component("network".to_string(), 1);
    plan.register_component("metrics".to_string(), 2);
    assert!(!plan.is_shutting_down());
    assert!(!plan.track_task());
    let names = plan.begin_shutdown();
    assert_eq!(names, vec!["network", "api", "metrics", "wal"]);
    assert!(plan.is_shutting_down());
}

#[test]
fn connection_admission_and_limits() {
    let limits = ConnectionLimits { max_connections: 3, max_connections_per_ip: 2, ..ConnectionLimits::default() };
    let mut m = ConnectionManager::new(limits);
    assert_eq!(m.try_accept_connection_at("10.0.0.1", 5000, 0), Ok("10.0.0.1:5000".to_string()));
    assert!(m.try_accept_connection_at("10.0.0.1", 5001, 0).is_ok());
    assert_eq!(m.try_accept_connection_at("10.0.0.1", 5002, 0), Err(ConnectionError::TooManyConnectionsFromIP));
    assert!(m.try_accept_connection_at("10.0.0.2", 6000, 0).is_ok());
    assert_eq!(m.try_accept_connection_at("10.0.0.3", 7000, 0), Err(ConnectionError::TooManyConnections));
    let stats = m.get_connection_stats();
    assert_eq!((stats.total_connections, stats.connections_by_ip, stats.available_permits), (3, 2, 0));
    m.remove_connection("10.0.0.2", 6000);
    let stats = m.get_connection_stats();
    assert_eq!((stats.total_connections, stats.connections_by_ip, stats.available_permits), (2, 1, 1));
    assert_eq!(connection_id("::1", 80), "::1:80");
}

#[test]
fn connection_rate_limit_and_idle_cleanup() {
    let limits = ConnectionLimits { rate_limit_per_connection: 2, idle_timeout_ms: 1_000, ..ConnectionLimits::default() };
    let mut m = ConnectionManager::new(limits);
    m.try_accept_connection_at("h", 1, 0).unwrap();
    assert!(m.check_rate_limit_at("h", 1, 10));
    assert!(m.check_rate_limit_at("h", 1, 20));
    assert!(!m.check_rate_limit_at("h", 1, 30));
    assert!(m.check_rate_limit_at("h", 1, 1_030));
    assert!(!m.check_rate_limit_at("other", 1, 30));
    m.cleanup_idle_at(500);
    assert!(m.check_rate_limit_at("h", 1, 2_100));
    m.cleanup_idle_at(2_000);
    assert!(!m.check_rate_limit_at("h", 1, 3_100));
    // The counts stay as they were.
    assert_eq!(m.get_connection_stats().total_connections, 1);
}

#[test]
fn connection_table_on_the_clock() {
    let limits = ConnectionLimits { max_connections: 2, idle_timeout_ms: 3_600_000, ..ConnectionLimits::default() };
    let mut m = ConnectionManager::new(limits);
    assert_eq!(m.try_accept_connection("10.1.1.1", 42), Ok("10.1.1.1:42".to_string()));
    assert!(m.check_rate_limit("10.1.1.1", 42));
    assert!(!m.check_rate_limit("10.1.1.1", 43));
    m.cleanup_idle_connections();
    assert!(m.check_rate_limit("10.1.1.1", 42));
    let c = ConnectionState::new("a:1".to_string(), "a".to_string(), 5);
    assert!(!c.is_idle(3_600_000));
    let mut b = c.rate_limiter;
    for _ in 0..5 {
        assert!(b.try_consume_at(1, c.connected_at_ms));
    }
    assert!(!b.try_consume_at(1, c.connected_at_ms));
}

#[test]
fn fanout_decisions() {
    assert_eq!(shard_count(0, Some(8)), 8);
    assert_eq!(shard_count(0, None), 2);
    assert_eq!(shard_count(40, Some(8)), 16);
    assert_eq!(shard_count(0, Some(0)), 1);
    assert_eq!(shard_queue_capacity(10), 1024);
    assert_eq!(shard_queue_capacity(4096), 4096);
    let id = SubscriberId::from("127.0.0.1:9".to_string());
    assert!(shard_index(&id, 4) < 4);
    assert_eq!(shard_index(&id, 0), 0);
    assert_eq!(shard_for_hash(10, 4), 2);
    assert_eq!(shard_for_hash(u64::MAX, 0), 0);
    assert_eq!(shard_for_hash(7, 7), 0);
    assert_eq!(classify_delivery(&Ok(())), DeliveryOutcome::Enqueued);
    assert_eq!(classify_delivery(&Err(BlipError::QueueClosed)), DeliveryOutcome::Disconnected);
    assert_eq!(classify_delivery(&Err(BlipError::QueueFull)), DeliveryOutcome::Dropped);
    assert_eq!(classify_delivery(&Err(BlipError::Timeout)), DeliveryOutcome::Ignored);
    assert!(should_deliver(&WireMessage { frame: Bytes::new(), expire_at: 0 }, 5));
    assert!(!should_deliver(&WireMessage { frame: Bytes::new(), expire_at: 5 }, 5));
    assert_eq!(id.as_str(), "127.0.0.1:9");
}

#[test]
fn delivery_defaults() {
    assert_eq!(PublisherConfig::default().delivery_mode, DeliveryMode::Ordered);
    let b = BatchConfig::default();
    assert_eq!((b.max_batch_size, b.max_batch_delay_ms, b.channel_capacity), (1000, 10, 8192));
}

#[test]
fn shell_lines() {
    assert_eq!(parse_repl_line("help", 10), ReplCommand::Help);
    assert_eq!(parse_repl_line("  quit ", 10), ReplCommand::Exit);
    assert_eq!(
        parse_repl_line("pub chat 5000 hello   everyone", 10),
        ReplCommand::Publish { topic: "chat".to_string(), ttl_ms: 5000, payload: "hello everyone".to_string() }
    );
    assert_eq!(
        parse_repl_line("pub chat hello everyone", 10),
        ReplCommand::Publish { topic: "chat".to_string(), ttl_ms: 10, payload: "hello everyone".to_string() }
    );
    assert_eq!(
        parse_repl_line("pub chat 5000", 10),
        ReplCommand::Publish { topic: "chat".to_string(), ttl_ms: 10, payload: "5000".to_string() }
    );
    assert_eq!(parse_repl_line("sub chat", 10), ReplCommand::Subscribe { topic: "chat".to_string() });
    assert_eq!(parse_repl_line("unsub chat", 10), ReplCommand::Unsubscribe { topic: "chat".to_string() });
    assert_eq!(parse_repl_line("pub chat", 10), ReplCommand::Unknown);
    assert_eq!(parse_repl_line("", 10), ReplCommand::Unknown);
    assert_eq!(split_words("\ta  b\u{3000}c "), vec!["a", "b", "c"]);
}

#[test]
fn monitoring_verdicts() {
    assert_eq!(memory_status(0), HealthStatus::Healthy);
    assert_eq!(memory_status(3_400_000_000), HealthStatus::Degraded);
    assert_eq!(memory_status(4_000_000_000), HealthStatus::Unhealthy);
    assert_eq!(connection_status(8_001), HealthStatus::Degraded);
    assert_eq!(connection_status(9_501), HealthStatus::Unhealthy);
    assert_eq!(latency_status(51), HealthStatus::Degraded);
    assert_eq!(latency_status(50), HealthStatus::Healthy);
    let check = |s: HealthStatus| HealthCheck {
        component: "c".to_string(),
        status: s,
        message: String::new(),
        response_time_ms: 0,
        last_check_ms: 0,
    };
    assert_eq!(overall_health(&vec![]), HealthStatus::Healthy);
    assert_eq!(overall_health(&vec![check(HealthStatus::Healthy), check(HealthStatus::Degraded)]), HealthStatus::Degraded);
    assert_eq!(overall_health(&vec![check(HealthStatus::Unhealthy), check(HealthStatus::Degraded)]), HealthStatus::Unhealthy);
    assert_eq!(HealthStatus::Degraded.label(), "degraded");
    assert_eq!(route_request("GET /metrics HTTP/1.1\r\n"), MetricsRoute::Metrics);
    assert_eq!(route_request("GET /health HTTP/1.1"), MetricsRoute::Health);
    assert_eq!(route_request("POST /status"), MetricsRoute::NotFound);
    assert_eq!(
        http_response("200 OK", "text/plain", "héllo"),
        "HTTP/1.1 200 OK\r\nContent-Type: text/plain\r\nContent-Length: 6\r\n\r\nhéllo"
    );
    let mut h: SnapshotHistory<u32> = SnapshotHistory::new();
    for i in 0..1005u32 {
        h.store_snapshot(i);
    }
    assert_eq!(h.len(), 1000);
    assert_eq!(*h.get(0), 5);
}

#[test]
fn report_alerts_and_topics() {
    let mut c = MetricsCollector::new();
    c.record_message_published("a", 10);
    c.record_message_published("a", 10);
    c.record_message_published("b", 10);
    c.record_message_published("b", 10);
    let mut s = c.snapshot_at(now_ms());
    assert_eq!(system_alerts(&s).len(), 1);
    assert_eq!(system_alerts(&s)[0].kind, SystemAlertKind::LowSuccessRate);
    assert_eq!(system_alerts(&s)[0].severity, AlertSeverity::Critical);
    s.memory_usage_bytes = 1_000_000_000;
    s.messages_delivered = 4;
    let alerts = system_alerts(&s);
    assert_eq!(alerts.len(), 1);
    assert_eq!((alerts[0].kind, alerts[0].severity), (SystemAlertKind::HighMemory, AlertSeverity::Warning));
    // Ties go to the last topic.
    let best = busiest_topic(&s.topic_metrics).unwrap();
    assert_eq!(s.topic_metrics[best].topic_name, s.topic_metrics[1].topic_name);
    assert_eq!(topic_message_total(&s.topic_metrics), 4);
    let none: Vec<TopicMetricsSnapshot> = Vec::new();
    assert_eq!(busiest_topic(&none), None);
}

#[test]
fn maintenance_run_reports_three_steps() {
    let admin = AdminManager::new();
    let report = admin.perform_maintenance().unwrap();
    let names: Vec<&str> = report.operations.iter().map(|o| o.operation.as_str()).collect();
    assert_eq!(names, vec!["memory_cleanup", "metrics_cleanup", "log_rotation"]);
    assert!(report.operations.iter().all(|o| o.success));
    assert_eq!(report.total_duration_ms, report.completed_at.saturating_sub(report.started_at));
    assert_eq!(report.operations[2].message.as_deref(), Some("Log rotation completed"));
}

#[test]
fn topic_registry_creates_once() {
    let mut reg: TopicRegistry<(String, usize)> = TopicRegistry::new(64);
    let name = "news".to_string();
    assert!(reg.get_topic(&name).is_none());
    let a = reg.create_or_get_topic(&name, |n, c| (n, c));
    assert_eq!(*a, ("news".to_string(), 64));
    let b = reg.create_or_get_topic_with_capacity(&name, 8, |_, _| panic!("already registered"));
    assert!(Arc::ptr_eq(&a, &b));
    let c = reg.create_or_get_topic_with_capacity(&"sport".to_string(), 8, |n, c| (n, c));
    assert_eq!(c.1, 8);
    let mut names = reg.list_topics();
    names.sort();
    assert_eq!(names, vec!["news".to_string(), "sport".to_string()]);
    let removed = reg.remove_topic(&name).unwrap();
    assert!(Arc::ptr_eq(&removed, &a));
    assert!(reg.remove_topic(&name).is_none());
    assert_eq!(reg.list_topics(), vec!["sport".to_string()]);
}

#[test]
fn performance_histograms_count_samples() {
    let mut m = PerformanceMetrics::new();
    assert_eq!(m.publish_samples(), 0);
    m.record_publish_latency(std::time::Duration::from_micros(250));
    m.record_publish_latency(std::time::Duration::from_secs(3_600));
    m.record_delivery_latency(std::time::Duration::from_micros(5));
    m.record_queue_depth(1 << 40);
    assert_eq!(m.publish_samples(), 2);
    assert_eq!(m.messages_delivered, 0);
}
