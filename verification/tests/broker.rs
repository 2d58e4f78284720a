use std::sync::Arc;
use std::time::{SystemTime, UNIX_EPOCH};

use bytes::Bytes;

use blipmq::accounts::{ApiKey, User};
use blipmq::auth::Permission;
use blipmq::auth_manager::AuthManager;
use blipmq::command::{new_pub_with_ttl, new_quit, new_sub, new_unsub, Action, ClientCommand};
use blipmq::dlq::{DeadLetterMessage, DeadLetterQueue, DlqAlertType, DlqPolicy, FailureCategory};
use blipmq::lockfree::MpmcQueue;
use blipmq::message::WireMessage;
use blipmq::qos::{AckType, Acknowledgment, DeduplicationManager, QosConfig, QosLevel, QosManager};
use blipmq::session::{
    admits_connection, parse_raw_command, sub_ack, topic_name_ok, ClientSession, CloseReason, FanoutTable,
    LengthCheck, RawCommand, SessionStep,
};

fn now_ms() -> u64 {
    SystemTime::now().duration_since(UNIX_EPOCH).unwrap().as_millis() as u64
}

fn wire(id: u64) -> Arc<WireMessage> {
    Arc::new(WireMessage { frame: Bytes::from(format!("test-message-{}", id)), expire_at: now_ms() + 60000 })
}

fn letter(id: u64, topic: &str, reason: &str) -> DeadLetterMessage {
    DeadLetterMessage::new(wire(id), topic.to_string(), "subscriber1".to_string(), reason.to_string(), 3, Vec::new())
}

#[test]
fn test_dlq_basic_operations() {
    let mut dlq = DeadLetterQueue::new();
    dlq.add_message(letter(1, "test-topic", "network error"));
    let stats = dlq.stats();
    assert_eq!(stats.total_messages, 1);
    assert_eq!(stats.current_size, 1);
    let messages = dlq.list_messages("test-topic", None);
    assert_eq!(messages.len(), 1);
    assert_eq!(messages[0].failure_category, FailureCategory::NetworkError);
}

#[test]
fn test_dlq_recovery() {
    let mut dlq = DeadLetterQueue::new();
    dlq.add_message(letter(1, "test-topic", "temporary error"));
    let recovered = dlq.recover_message("test-topic", 0);
    assert!(recovered.is_some());
    assert_eq!(dlq.list_messages("test-topic", None).len(), 0);
    let stats = dlq.stats();
    assert_eq!(stats.messages_recovered, 1);
    assert_eq!(stats.current_size, 0);
}

#[test]
fn test_dlq_capacity_management() {
    let mut dlq = DeadLetterQueue::new();
    let mut policy = DlqPolicy::default();
    policy.max_dlq_size = 2;
    dlq.set_policy("test-topic".to_string(), policy);
    for i in 0..3 {
        dlq.add_message(letter(i, "test-topic", "error"));
    }
    let messages = dlq.list_messages("test-topic", None);
    assert_eq!(messages.len(), 2);
    // The oldest message made room.
    assert_eq!(&messages[0].original_message.frame[..], b"test-message-1");
}

#[test]
fn test_purge_operations() {
    let mut dlq = DeadLetterQueue::new();
    for i in 0..5 {
        dlq.add_message(letter(i, "test-topic", "error"));
    }
    let purged = dlq.purge_all_messages("test-topic");
    assert_eq!(purged, 5);
    assert_eq!(dlq.list_messages("test-topic", None).len(), 0);
    let stats = dlq.stats();
    assert_eq!(stats.messages_purged, 5);
    assert_eq!(stats.current_size, 0);
}

#[test]
fn dlq_retryable_categories() {
    assert!(letter(1, "t", "Connection reset").can_retry);
    assert!(letter(1, "t", "disk full").can_retry);
    assert!(!letter(1, "t", "Permission denied").can_retry);
    assert_eq!(letter(1, "t", "HANDLER panicked").failure_category, FailureCategory::ProcessingError);
}

#[test]
fn dlq_expired_purge_and_alerts() {
    let mut dlq = DeadLetterQueue::new();
    let mut policy = DlqPolicy::default();
    policy.retention_duration_ms = 100;
    policy.alert_thresholds.size_threshold = 2;
    policy.max_dlq_size = 4;
    dlq.set_policy("t".to_string(), policy);
    let mut m = letter(1, "t", "error");
    m.dlq_entry_time = 1_000;
    let alerts = dlq.add_message_at(m, 1_000);
    assert!(alerts.is_empty());
    let mut m = letter(2, "t", "error");
    m.dlq_entry_time = 1_050;
    let alerts = dlq.add_message_at(m, 1_050);
    assert_eq!(alerts.len(), 1);
    assert_eq!(alerts[0].alert_type, DlqAlertType::SizeThreshold);
    assert_eq!(alerts[0].current_size, 2);
    // Too soon for another size alert; 3 of 4 is below 80%.
    let alerts = dlq.add_message_at(letter(3, "t", "error"), 1_060);
    assert!(alerts.is_empty());
    assert_eq!(dlq.stats().alerts_sent, 1);
    // At 1 200 the first two have outlived their 100 ms.
    let n = dlq.purge_expired_messages_at("t", 1_200);
    assert_eq!(n, 2);
    assert_eq!(dlq.topic_len("t"), 1);
    assert_eq!(dlq.stats().messages_purged, 2);
}

#[test]
fn dlq_maintenance_tick_drops_expired() {
    let mut dlq = DeadLetterQueue::new();
    let mut m = letter(1, "a", "error");
    m.dlq_entry_time = 0;
    dlq.add_message_at(m, 0);
    dlq.add_message_at(letter(2, "b", "error"), 0);
    dlq.maintenance_tick_at(604_800_001);
    assert_eq!(dlq.topic_len("a"), 0);
    assert_eq!(dlq.topic_len("b"), 1);
    assert_eq!(dlq.stats().messages_purged, 0);
}

#[test]
fn test_qos_at_most_once() {
    let mut q = QosManager::new(QosConfig::default());
    let r = q.send_message(wire(123), "subscriber1".to_string(), "test-topic".to_string(), QosLevel::AtMostOnce);
    assert!(!r.awaiting_ack);
    assert_eq!(q.pending_count(), 0);
    assert_eq!(q.stats().messages_sent, 1);
}

#[test]
fn test_qos_at_least_once() {
    let mut q = QosManager::new(QosConfig::default());
    let r = q.send_message(wire(123), "subscriber1".to_string(), "test-topic".to_string(), QosLevel::AtLeastOnce);
    assert_eq!(q.pending_count(), 1);
    assert!(q.is_message_pending(r.message_id));
    let ack = Acknowledgment::new(r.message_id, "subscriber1".to_string(), "test-topic".to_string(), AckType::Ack, None);
    assert!(q.process_acknowledgment(ack));
    assert_eq!(q.pending_count(), 0);
    let stats = q.stats();
    assert_eq!(stats.messages_sent, 1);
    assert_eq!(stats.messages_acked, 1);
    assert!(q.get_acknowledgment(r.message_id).is_some());
}

#[test]
fn test_deduplication() {
    let mut q = QosManager::new(QosConfig::default());
    let m = wire(123);
    let r1 = q.send_message(m.clone(), "subscriber1".to_string(), "test-topic".to_string(), QosLevel::AtLeastOnce);
    let r2 = q.send_message(m, "subscriber1".to_string(), "test-topic".to_string(), QosLevel::AtLeastOnce);
    assert_eq!(r1.message_id, r2.message_id);
    assert_eq!(q.pending_count(), 1);
    assert_eq!(q.stats().duplicates_filtered, 1);
}

#[test]
fn qos_exactly_once_is_filtered_with_dedup() {
    let mut q = QosManager::new(QosConfig::default());
    let r = q.send_message(wire(7), "s".to_string(), "t".to_string(), QosLevel::ExactlyOnce);
    assert!(!r.awaiting_ack);
    assert_eq!(q.pending_count(), 0);
    assert_eq!(q.stats().duplicates_filtered, 1);
    let mut config = QosConfig::default();
    config.enable_deduplication = false;
    let mut q = QosManager::new(config);
    let r = q.send_message(wire(7), "s".to_string(), "t".to_string(), QosLevel::ExactlyOnce);
    assert!(r.awaiting_ack);
    assert_eq!(q.pending_count(), 1);
}

#[test]
fn qos_nack_reject_and_message_ids() {
    let mut q = QosManager::new(QosConfig::default());
    let r = q.send_message_at(wire(1), "s".to_string(), "t".to_string(), QosLevel::AtLeastOnce, 10);
    let other = q.send_message_at(wire(2), "s".to_string(), "t".to_string(), QosLevel::AtLeastOnce, 10);
    assert_ne!(r.message_id, other.message_id);
    let nack = Acknowledgment::new(r.message_id, "s".to_string(), "t".to_string(), AckType::Nack, Some("busy".to_string()));
    assert!(!q.process_acknowledgment(nack));
    assert!(q.is_message_pending(r.message_id));
    let reject = Acknowledgment::new(r.message_id, "s".to_string(), "t".to_string(), AckType::Reject, None);
    assert!(q.process_acknowledgment(reject));
    assert!(!q.is_message_pending(r.message_id));
    let stats = q.stats();
    assert_eq!(stats.messages_nacked, 1);
    assert_eq!(stats.messages_rejected, 1);
}

#[test]
fn qos_retry_and_expiry_pass() {
    let mut q = QosManager::new(QosConfig::default());
    let a = q.send_message_at(wire(1), "s".to_string(), "t".to_string(), QosLevel::AtLeastOnce, 1_000);
    let b = q.send_message_at(wire(2), "s".to_string(), "t".to_string(), QosLevel::AtLeastOnce, 20_000);
    // At 32 000 the first has waited 31 s (> 30 s) and the second's retry is due.
    let pass = q.retry_tick_at(32_000);
    assert_eq!(pass.expired, vec![a.message_id]);
    assert_eq!(pass.retried, vec![b.message_id]);
    assert!(!q.is_message_pending(a.message_id));
    assert!(q.is_message_pending(b.message_id));
    let stats = q.stats();
    assert_eq!(stats.messages_expired, 1);
    assert_eq!(stats.messages_retried, 1);
    assert_eq!(stats.pending_count, 1);
}

#[test]
fn test_mpmc_queue() {
    let mut queue = MpmcQueue::new(1024);
    for i in 0..1000u64 {
        assert!(queue.try_enqueue(i).is_ok());
    }
    for i in 0..1000u64 {
        assert_eq!(queue.try_dequeue(), Some(i));
    }
    assert_eq!(queue.len(), 0);
    assert!(queue.is_empty());
}

#[test]
fn test_basic_authentication() {
    let mut auth_manager = AuthManager::new("test-secret".to_string());
    let mut user = User::new("user1".to_string(), "testuser".to_string(), Some("test@example.com".to_string()));
    user.set_password("password123");
    let api_key_value = "test-api-key-12345";
    user.add_api_key(ApiKey::new("Test Key".to_string(), api_key_value));
    auth_manager.create_user(user).unwrap();
    let ctx = auth_manager.authenticate_password("testuser", "password123").unwrap();
    assert_eq!(ctx.username, "testuser");
    assert!(ctx.has_permission(&Permission::Subscribe));
    assert!(ctx.has_permission(&Permission::Publish));
    let ctx2 = auth_manager.authenticate_api_key(api_key_value).unwrap();
    assert_eq!(ctx2.user_id, ctx.user_id);
    assert!(auth_manager.authenticate_password("testuser", "wrong").is_none());
}

#[test]
fn test_jwt_tokens() {
    let auth_manager = AuthManager::new("test-secret".to_string());
    let claims = br#"{"sub":"user1","username":"testuser"}"#;
    let token = auth_manager.sign_token(claims);
    assert!(!token.is_empty());
    assert_eq!(auth_manager.open_token(&token), Some(claims.to_vec()));
    let mut forged = token.clone();
    let last = forged.len() - 1;
    forged[last] = if forged[last] == b'A' { b'B' } else { b'A' };
    assert_eq!(auth_manager.open_token(&forged), None);
}

#[test]
fn session_length_prefixes() {
    let s = ClientSession::new(1024);
    assert_eq!(s.on_length(&[0, 0, 0, 12]), LengthCheck::Read(12));
    assert_eq!(s.on_length(&[0, 0, 0, 0]), LengthCheck::Close(CloseReason::Empty));
    assert_eq!(s.on_length(&[0, 0, 4, 1]), LengthCheck::Close(CloseReason::Oversized));
    assert_eq!(s.on_length(&[0, 0, 4, 0]), LengthCheck::Read(1024));
}

#[test]
fn session_commands() {
    let mut s = ClientSession::new(8);
    match s.on_command(Some(new_pub_with_ttl("news".to_string(), Bytes::from_static(b"hi"), 500))) {
        SessionStep::Publish { topic, payload, ttl_ms } => {
            assert_eq!(topic, "news");
            assert_eq!(&payload[..], b"hi");
            assert_eq!(ttl_ms, 500);
        }
        other => panic!("unexpected {:?}", other),
    }
    assert!(matches!(
        s.on_command(Some(new_pub_with_ttl("news".to_string(), Bytes::from_static(b"too long!"), 0))),
        SessionStep::Close(CloseReason::OversizedPayload)
    ));
    assert!(matches!(s.on_command(Some(new_sub("a/b".to_string()))), SessionStep::Close(CloseReason::InvalidTopic)));
    assert!(matches!(s.on_command(Some(new_sub("".to_string()))), SessionStep::Close(CloseReason::InvalidTopic)));
    assert!(matches!(s.on_command(None), SessionStep::Close(CloseReason::Malformed)));
    // A quit names no topic, so the topic check closes the connection first.
    assert!(matches!(s.on_command(Some(new_quit())), SessionStep::Close(CloseReason::InvalidTopic)));
    let quit = ClientCommand { action: Action::Quit, topic: "x".to_string(), payload: Bytes::new(), ttl_ms: 0 };
    assert!(matches!(s.on_command(Some(quit)), SessionStep::Close(CloseReason::Quit)));
    assert!(matches!(s.on_command(Some(new_unsub("x".to_string()))), SessionStep::Unsubscribe { .. }));
    match s.on_command(Some(new_sub("x".to_string()))) {
        SessionStep::Subscribe { topic } => s.subscribed(topic),
        other => panic!("unexpected {:?}", other),
    }
    s.subscribed("y".to_string());
    assert_eq!(s.finish(), vec!["x".to_string(), "y".to_string()]);
}

#[test]
fn session_pooled_commands() {
    let s = ClientSession::new(8);
    assert!(matches!(s.on_command_pooled(Some(new_sub("a/b".to_string())), false), SessionStep::Skip));
    assert!(matches!(s.on_command_pooled(None, true), SessionStep::Skip));
    assert!(matches!(s.on_command_pooled(Some(new_sub("a/b".to_string())), true), SessionStep::Subscribe { .. }));
}

#[test]
fn session_topic_names() {
    assert!(topic_name_ok(&"sensors.temp".to_string()));
    assert!(!topic_name_ok(&"a\nb".to_string()));
    assert!(!topic_name_ok(&"x".repeat(257)));
    assert!(topic_name_ok(&"x".repeat(256)));
    // 129 two-byte characters are 258 bytes.
    assert!(!topic_name_ok(&"é".repeat(129)));
    assert!(admits_connection(255, 256));
    assert!(!admits_connection(256, 256));
    let ack = sub_ack("t".to_string());
    assert_eq!(ack.info, "subscribed");
}

#[test]
fn raw_commands_and_fanout() {
    match parse_raw_command(b"P\x03abcpayload") {
        RawCommand::Publish { topic, payload } => {
            assert_eq!(topic, "abc");
            assert_eq!(payload, b"payload".to_vec());
        }
        other => panic!("unexpected {:?}", other),
    }
    assert!(matches!(parse_raw_command(b"S\x02ab"), RawCommand::Subscribe { .. }));
    assert!(matches!(parse_raw_command(b"S\x05ab"), RawCommand::Ignored));
    assert!(matches!(parse_raw_command(b"X\x01a"), RawCommand::Ignored));
    let mut table = FanoutTable::new();
    table.subscribe("t".to_string(), 1);
    table.subscribe("t".to_string(), 2);
    table.subscribe("t".to_string(), 3);
    assert_eq!(table.targets("t", 2), vec![1, 3]);
    table.unsubscribe("t", 1);
    assert_eq!(table.targets("t", 9), vec![2, 3]);
    assert!(table.targets("none", 1).is_empty());
}

#[test]
fn dedup_cleanup_keeps_largest_ids() {
    let mut d = DeduplicationManager::new(1000);
    for id in 0..=10000u64 {
        d.record_message("big", id);
    }
    for id in 0..100u64 {
        d.record_message("small", id);
    }
    d.cleanup_old_entries();
    assert!(!d.is_duplicate("big", 0));
    assert!(!d.is_duplicate("big", 5000));
    assert!(d.is_duplicate("big", 5001));
    assert!(d.is_duplicate("big", 10000));
    assert!(d.is_duplicate("small", 0));
    assert!(d.is_duplicate("small", 99));
}

#[test]
fn dedup_repeated_ids_count_once() {
    let mut d = DeduplicationManager::new(1000);
    for id in 0..10000u64 {
        d.record_message("sub", id);
    }
    d.record_message("sub", 7);
    d.record_message("sub", 9999);
    d.cleanup_old_entries();
    assert!(d.is_duplicate("sub", 0));
    assert!(d.is_duplicate("sub", 9999));
}

#[test]
fn registry_insert_updates_existing_key() {
    let mut r: blipmq::lockfree::LockFreeRegistry<String, u32> = blipmq::lockfree::LockFreeRegistry::new(16);
    assert_eq!(r.insert("a".to_string(), 1), None);
    assert_eq!(r.insert("b".to_string(), 2), None);
    assert_eq!(r.insert("a".to_string(), 3), Some(1));
    assert_eq!(r.get(&"a".to_string()), Some(&3));
    assert_eq!(r.len(), 2);
    assert_eq!(r.remove(&"a".to_string()), Some(3));
    assert_eq!(r.get(&"a".to_string()), None);
}

#[test]
fn qos_send_with_given_id() {
    let mut q = QosManager::new(QosConfig::default());
    let r = q.send_with_id_at(wire(7), 42, "s".to_string(), "t".to_string(), QosLevel::AtLeastOnce, 5);
    assert_eq!(r.message_id, 42);
    assert!(r.awaiting_ack);
    assert!(q.is_message_pending(42));
    let again = q.send_with_id_at(wire(7), 42, "s".to_string(), "t".to_string(), QosLevel::AtLeastOnce, 6);
    assert!(!again.awaiting_ack);
    assert_eq!(blipmq::qos::extract_message_id(&wire(7)), blipmq::qos::extract_message_id(&wire(7)));
}

#[test]
fn wal_entry_checksums() {
    use_wal_entry();
}

fn use_wal_entry() {
    let e = blipmq::wal::WalEntry::new_at(3, blipmq::wal::WalEntryType::Checkpoint { sequence: 3, timestamp: 9 }, 100);
    assert_eq!((e.sequence, e.timestamp), (3, 100));
    assert!(e.is_valid());
    assert!(e.matches_checksum(e.checksum));
    let forged = blipmq::wal::WalEntry::with_checksum(3, blipmq::wal::WalEntryType::Checkpoint { sequence: 3, timestamp: 9 }, 100, e.checksum.wrapping_add(1));
    assert!(!forged.is_valid());
    assert!(!forged.matches_checksum(e.checksum));
}
