use std::sync::Arc;
use std::time::{SystemTime, UNIX_EPOCH};

use bytes::Bytes;

use blipmq::admin::{AdminManager, RuntimeConfig};
use blipmq::accounts::RateLimiter;
use blipmq::auth::{glob_match, Permission, PermissionSet, Role};
use blipmq::collector::{LatencyMetrics, MetricsCollector};
use blipmq::dlq::{DeadLetterMessage, FailureCategory};
use blipmq::message::WireMessage;
use blipmq::pool::ObjectPool;
use blipmq::protocol::{Frame, FrameBuilder, FrameHeader, OpCode};
use blipmq::qos::{AckType, Acknowledgment, PendingMessage, QosLevel};
use blipmq::vectored_io::MessageSplitter;

fn now_ms() -> u64 {
    SystemTime::now().duration_since(UNIX_EPOCH).unwrap().as_millis() as u64
}

fn test_wire_message(id: u64) -> Arc<WireMessage> {
    Arc::new(WireMessage { frame: Bytes::from(format!("test-message-{}", id)), expire_at: now_ms() + 60000 })
}

fn test_dlq_message(id: u64, topic: &str, reason: &str) -> DeadLetterMessage {
    DeadLetterMessage::new(
        test_wire_message(id),
        topic.to_string(),
        "subscriber1".to_string(),
        reason.to_string(),
        3,
        Vec::new(),
    )
}

#[test]
fn test_latency_metrics() {
    let mut latency = LatencyMetrics::new();
    latency.record(5);
    latency.record(15);
    latency.record(25);
    let snapshot = latency.snapshot();
    assert_eq!(snapshot.count, 3);
    assert_eq!(snapshot.sum_ms as f64 / snapshot.count as f64, 15.0);
    assert_eq!(snapshot.min_ms, 5);
    assert_eq!(snapshot.max_ms, 25);
}

#[test]
fn test_metrics_collector() {
    let mut collector = MetricsCollector::new();
    collector.record_message_published("test-topic", 100);
    collector.record_message_delivered("test-topic", 100, 5);
    collector.record_connection_opened();
    let snapshot = collector.snapshot();
    assert_eq!(snapshot.messages_published, 1);
    assert_eq!(snapshot.messages_delivered, 1);
    assert_eq!(snapshot.connections_active, 1);
    assert_eq!(snapshot.connections_total, 1);
    assert_eq!(snapshot.topic_metrics.len(), 1);
}

#[test]
fn test_glob_matching() {
    assert!(glob_match("*", "any-topic"));
    assert!(glob_match("user.*", "user.events"));
    assert!(glob_match("*.logs", "app.logs"));
    assert!(!glob_match("user.*", "admin.events"));
}

#[test]
fn test_role_permissions() {
    let permissions = PermissionSet::from_slice(&[Permission::Subscribe, Permission::Publish]);
    let role = Role::new("test_role".to_string(), "Test role".to_string(), permissions);
    assert!(role.has_permission(&Permission::Subscribe));
    assert!(role.has_permission(&Permission::Publish));
    assert!(!role.has_permission(&Permission::Admin));
    assert!(role.can_access_topic("any-topic"));
}

#[test]
fn test_rate_limiting() {
    let mut rate_limiter = RateLimiter::new();
    for _ in 0..5 {
        assert!(rate_limiter.check_rate_limit("user1", 10));
    }
    assert!(rate_limiter.check_rate_limit("user1", 10));
}

#[test]
fn test_failure_categorization() {
    assert_eq!(FailureCategory::from("network timeout"), FailureCategory::NetworkError);
    assert_eq!(FailureCategory::from("invalid format"), FailureCategory::FormatError);
    assert_eq!(FailureCategory::from("processing failed"), FailureCategory::ProcessingError);
    assert_eq!(FailureCategory::from("auth denied"), FailureCategory::AuthError);
    assert_eq!(FailureCategory::from("out of memory"), FailureCategory::ResourceError);
    assert_eq!(FailureCategory::from("request timeout"), FailureCategory::TimeoutError);
    assert_eq!(FailureCategory::from("unknown issue"), FailureCategory::Unknown);
}

#[test]
fn test_message_expiration() {
    let message = test_dlq_message(1, "test-topic", "error");
    assert!(!message.is_expired(3600000));
    assert!(!message.is_expired(1000));
    let old_time = now_ms() - 5000;
    let mut old_message = test_dlq_message(2, "test-topic", "old error");
    old_message.dlq_entry_time = old_time;
    assert!(old_message.is_expired(1000));
    assert!(!old_message.is_expired(10000));
}

#[test]
fn test_header_size() {
    assert_eq!(FrameHeader::size(), 8);
}

#[test]
fn test_frame_roundtrip() {
    let mut builder = FrameBuilder::new();
    let frame_bytes = builder.publish(b"test/topic", b"hello world", 60000);
    let parsed = Frame::parse(&frame_bytes).unwrap();
    assert_eq!(parsed.header.opcode(), OpCode::Pub);
    assert_eq!(parsed.topic, b"test/topic");
    assert_eq!(&parsed.payload[4..], b"hello world");
}

#[test]
fn test_acknowledgment_types() {
    let ack = Acknowledgment::new(123, "subscriber1".to_string(), "test-topic".to_string(), AckType::Ack, None);
    assert_eq!(ack.message_id, 123);
    assert_eq!(ack.ack_type, AckType::Ack);
    assert_eq!(ack.subscriber_id, "subscriber1");
    assert!(ack.timestamp > 0);
}

#[test]
fn test_pending_message_retry_logic() {
    let message = test_wire_message(123);
    let mut pending = PendingMessage::new(
        message,
        "subscriber1".to_string(),
        "test-topic".to_string(),
        QosLevel::AtLeastOnce,
    );
    let now = now_ms();
    assert!(!pending.should_retry(now));
    assert!(pending.should_retry(now + 2000));
    pending.increment_retry();
    assert_eq!(pending.retry_count, 1);
    assert!(pending.next_retry_at > now);
}

#[test]
fn test_message_splitter() {
    let mut splitter = MessageSplitter::new();
    let message_data = b"test message";
    let mut buffer = Vec::new();
    buffer.extend_from_slice(&(message_data.len() as u32).to_be_bytes());
    buffer.extend_from_slice(message_data);
    splitter.add_data(&buffer);
    let messages = splitter.extract_messages();
    assert_eq!(messages.len(), 1);
    assert_eq!(&messages[0][..], message_data);
}

#[test]
fn test_default_runtime_config() {
    let config = RuntimeConfig::default();
    assert!(config.metrics_collection_enabled);
    assert_eq!(config.metrics_collection_interval_seconds, 60);
    assert!(config.health_monitoring_enabled);
}

#[test]
fn test_config_validation() {
    let admin = AdminManager::new();
    let valid_config = RuntimeConfig::default();
    assert!(admin.validate_config(&valid_config).is_ok());
    let mut invalid_config = RuntimeConfig::default();
    invalid_config.metrics_collection_interval_seconds = 0;
    assert!(admin.validate_config(&invalid_config).is_err());
    let mut invalid_config = RuntimeConfig::default();
    invalid_config.max_message_size_bytes = 200 * 1024 * 1024;
    assert!(admin.validate_config(&invalid_config).is_err());
    let mut invalid_config = RuntimeConfig::default();
    invalid_config.log_level = "invalid".to_string();
    assert!(admin.validate_config(&invalid_config).is_err());
}

#[test]
fn test_config_update() {
    let mut admin = AdminManager::new();
    let mut new_config = RuntimeConfig::default();
    new_config.metrics_collection_interval_seconds = 120;
    new_config.max_message_size_bytes = 2 * 1024 * 1024;
    assert!(admin.update_config(new_config.clone()).is_ok());
    let current_config = admin.get_config();
    assert_eq!(current_config.metrics_collection_interval_seconds, 120);
    assert_eq!(current_config.max_message_size_bytes, 2 * 1024 * 1024);
}

#[test]
fn test_object_pool_basic() {
    let mut pool = ObjectPool::new(10, || Vec::<i32>::with_capacity(100), |mut v: Vec<i32>| {
        v.clear();
        v
    });
    let mut obj = pool.get();
    obj.push(42);
    assert_eq!(obj.len(), 1);
    pool.put(obj);
    let obj2 = pool.get();
    assert_eq!(obj2.len(), 0);
    assert_eq!(obj2.capacity(), 100);
    let stats = pool.stats();
    assert_eq!(stats.allocations, 2);
    assert_eq!(stats.cache_hits, 1);
    assert_eq!(stats.cache_misses, 1);
}

#[test]
fn test_pool_max_size() {
    let mut pool = ObjectPool::new(2, || Vec::<i32>::new(), |mut v: Vec<i32>| {
        v.clear();
        v
    });
    let obj1 = pool.get();
    let obj2 = pool.get();
    let obj3 = pool.get();
    pool.put(obj1);
    pool.put(obj2);
    pool.put(obj3);
    let stats = pool.stats();
    assert_eq!(stats.pool_size, 2);
    assert_eq!(stats.deallocations, 3);
}

#[test]
fn test_pool_stats() {
    let mut pool = ObjectPool::new(5, || Vec::<i32>::new(), |mut v: Vec<i32>| {
        v.clear();
        v
    });
    for _ in 0..10 {
        let obj = pool.get();
        pool.put(obj);
    }
    let stats = pool.stats();
    assert_eq!(stats.allocations, 10);
    assert_eq!(stats.deallocations, 10);
    let hit_ratio = stats.cache_hits as f64 / stats.allocations as f64 * 100.0;
    assert!(hit_ratio > 0.0);
    assert!(stats.pool_size <= 5);
}
