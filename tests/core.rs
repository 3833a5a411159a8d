use jaymatch::delivery::{SendError, Store};
use jaymatch::ledger::{canonicalize, CreateOutcome, DeleteOutcome, MatchLedger};
use jaymatch::messages::{Message, MessageLog, DEFAULT_HISTORY_LIMIT};
use jaymatch::registry::Registry;
use jaymatch::session::Session;

fn matched_store(a: i32, b: i32) -> Store {
    let mut store = Store::new();
    assert_eq!(store.create_match_at(a, b, 10), CreateOutcome::Created);
    store
}

#[test]
fn canonicalize_orders_either_way() {
    assert_eq!(canonicalize(5, 2), (2, 5));
    assert_eq!(canonicalize(2, 5), (2, 5));
    assert_eq!(canonicalize(-3, -7), canonicalize(-7, -3));
    assert_eq!(canonicalize(4, 4), (4, 4));
}

#[test]
fn creating_a_match_twice_keeps_one_row() {
    let mut store = Store::new();
    assert_eq!(store.create_match_at(1, 2, 10), CreateOutcome::Created);
    assert_eq!(store.create_match_at(2, 1, 20), CreateOutcome::AlreadyExists);
    let of_one = store.matches_of(1);
    assert_eq!(of_one.len(), 1);
    assert_eq!(of_one[0].user_id, 1);
    assert_eq!(of_one[0].matched_user_id, 2);
    assert_eq!(of_one[0].timestamp, 10);
    let of_two = store.matches_of(2);
    assert_eq!(of_two.len(), 1);
    assert_eq!(of_two[0].matched_user_id, 1);
}

#[test]
fn create_match_with_clock_is_success_and_matches() {
    let mut store = Store::new();
    let (first, ts) = store.create_match(7, 3);
    assert_eq!(first, CreateOutcome::Created);
    assert_eq!(store.create_match(3, 7).0, CreateOutcome::AlreadyExists);
    assert!(store.is_matched(3, 7));
    let entries = store.matches_of(7);
    assert_eq!(entries.len(), 1);
    assert_eq!(entries[0].timestamp, ts);
    assert!(ts > 0);
}

#[test]
fn delete_match_reports_not_found_when_absent() {
    let mut ledger = MatchLedger::new();
    assert_eq!(ledger.delete(1, 2), DeleteOutcome::NotFound);
    ledger.create(1, 2, 5);
    ledger.create(1, 3, 6);
    assert_eq!(ledger.delete(2, 1), DeleteOutcome::Unmatched);
    assert!(!ledger.is_matched(1, 2));
    assert!(ledger.is_matched(3, 1));
    assert_eq!(ledger.delete(1, 2), DeleteOutcome::NotFound);
}

#[test]
fn matches_of_lists_the_other_user() {
    let mut ledger = MatchLedger::new();
    ledger.create(5, 1, 100);
    ledger.create(5, 9, 200);
    ledger.create(1, 9, 300);
    let e = ledger.entries(5);
    assert_eq!(e.len(), 2);
    assert_eq!((e[0].matched_user_id, e[0].timestamp), (1, 100));
    assert_eq!((e[1].matched_user_id, e[1].timestamp), (9, 200));
    assert!(ledger.entries(4).is_empty());
}

#[test]
fn send_without_match_is_unauthorized_and_stores_nothing() {
    let mut store = Store::new();
    let registry = Registry::new();
    let r = store.send_at(&registry, 1, 2, "hello".to_string(), 50);
    assert!(matches!(r, Err(SendError::Unauthorized)));
    assert_eq!(store.message_count(), 0);
    assert!(store.history(1, 2, 100).is_empty());
}

#[test]
fn empty_content_is_refused_before_the_match_is_checked() {
    let mut store = matched_store(1, 2);
    let registry = Registry::new();
    let r = store.send_at(&registry, 1, 2, String::new(), 50);
    assert!(matches!(r, Err(SendError::EmptyContent)));
    let unmatched = store.send_at(&registry, 1, 3, String::new(), 50);
    assert!(matches!(unmatched, Err(SendError::EmptyContent)));
    assert_eq!(store.message_count(), 0);
}

#[test]
fn send_between_matched_users_is_the_latest_in_history() {
    let mut store = matched_store(1, 2);
    let registry = Registry::new();
    store.send_at(&registry, 2, 1, "first".to_string(), 100).unwrap();
    let d = store.send_at(&registry, 1, 2, "second".to_string(), 200).unwrap();
    assert_eq!(store.message_count(), 2);
    assert_eq!(d.message.id, 2);
    assert!(d.targets.is_empty());
    for (a, b) in [(1, 2), (2, 1)] {
        let h = store.history(a, b, 1);
        assert_eq!(h.len(), 1);
        assert_eq!(h[0].content, "second");
        let all = store.history(a, b, DEFAULT_HISTORY_LIMIT);
        assert_eq!(all.len(), 2);
        assert_eq!(all[0].content, "first");
        assert_eq!(all[1].content, "second");
    }
}

#[test]
fn unmatching_keeps_messages_and_blocks_sends() {
    let mut store = matched_store(1, 2);
    let registry = Registry::new();
    store.send_at(&registry, 1, 2, "hi".to_string(), 100).unwrap();
    assert_eq!(store.delete_match(2, 1), DeleteOutcome::Unmatched);
    assert_eq!(store.history(1, 2, 100).len(), 1);
    let r = store.send_at(&registry, 1, 2, "again".to_string(), 200);
    assert!(matches!(r, Err(SendError::Unauthorized)));
    let back = store.send_at(&registry, 2, 1, "back".to_string(), 300);
    assert!(matches!(back, Err(SendError::Unauthorized)));
    assert_eq!(store.message_count(), 1);
}

#[test]
fn send_with_clock_stores_and_stamps() {
    let mut store = matched_store(4, 6);
    let registry = Registry::new();
    let d = store.send(&registry, 6, 4, "now".to_string()).unwrap();
    assert_eq!(d.message.sender_id, 6);
    assert_eq!(d.message.receiver_id, 4);
    assert!(d.message.timestamp > 0);
    let h = store.history(4, 6, 10);
    assert_eq!(h.len(), 1);
    assert_eq!(h[0].timestamp, d.message.timestamp);
}

#[test]
fn history_keeps_only_the_pair_and_the_limit() {
    let mut store = Store::new();
    store.create_match_at(1, 2, 1);
    store.create_match_at(1, 3, 1);
    let registry = Registry::new();
    for (i, (s, r)) in [(1, 2), (1, 3), (2, 1), (1, 2), (3, 1)].iter().enumerate() {
        store.send_at(&registry, *s, *r, format!("m{}", i), i as i64).unwrap();
    }
    let h = store.history(2, 1, 2);
    let texts: Vec<&str> = h.iter().map(|m| m.content.as_str()).collect();
    assert_eq!(texts, vec!["m2", "m3"]);
    assert_eq!(store.history(1, 2, 0).len(), 0);
    assert_eq!(store.history(1, 3, 100).len(), 2);
}

#[test]
fn deleting_a_user_removes_their_messages_only() {
    let mut store = Store::new();
    store.create_match_at(1, 2, 1);
    store.create_match_at(3, 4, 1);
    let registry = Registry::new();
    store.send_at(&registry, 1, 2, "a".to_string(), 1).unwrap();
    store.send_at(&registry, 3, 4, "b".to_string(), 2).unwrap();
    store.send_at(&registry, 2, 1, "c".to_string(), 3).unwrap();
    store.delete_user_messages(2);
    assert_eq!(store.message_count(), 1);
    assert_eq!(store.history(3, 4, 10)[0].content, "b");
    let d = store.send_at(&registry, 4, 3, "d".to_string(), 4).unwrap();
    assert_eq!(d.message.id, 4);
}

#[test]
fn restore_takes_only_rising_ids() {
    let mut log = MessageLog::new();
    let m = |id: i64| Message {
        id,
        sender_id: 1,
        receiver_id: 2,
        content: "x".to_string(),
        timestamp: id,
    };
    assert!(log.restore(m(5)));
    assert!(!log.restore(m(5)));
    assert!(!log.restore(m(3)));
    assert!(log.restore(m(9)));
    assert!(!log.restore(m(i64::MAX)));
    assert_eq!(log.len(), 2);
    let next = log.append(1, 2, "y".to_string(), 10).unwrap();
    assert_eq!(next.id, 10);
}

#[test]
fn registry_last_registration_wins() {
    let mut reg = Registry::new();
    reg.register(1, 100);
    reg.register(1, 200);
    assert_eq!(reg.lookup(1), Some(200));
    assert!(!reg.unregister(1, 100));
    assert_eq!(reg.lookup(1), Some(200));
    assert!(reg.unregister(1, 200));
    assert_eq!(reg.lookup(1), None);
    assert!(!reg.unregister(1, 200));
}

#[test]
fn sessions_get_fresh_channels_and_a_stale_close_is_harmless() {
    let mut reg = Registry::new();
    let (first, w1) = Session::open(&mut reg, 1).unwrap();
    let (second, _) = Session::open(&mut reg, 1).unwrap();
    assert_ne!(first.channel, second.channel);
    assert_eq!(w1, "{\"type\":\"system\",\"payload\":\"Connected as user 1\"}");
    assert!(!first.close(&mut reg));
    assert_eq!(reg.lookup(1), Some(second.channel));
    assert!(second.close(&mut reg));
    assert_eq!(reg.lookup(1), None);
}

#[test]
fn scenario_hi_from_one_to_two_at_1000() {
    let mut store = Store::new();
    let mut reg = Registry::new();
    assert_eq!(store.create_match_at(1, 2, 5), CreateOutcome::Created);
    let (a, _) = Session::open(&mut reg, 1).unwrap();
    let (b, _) = Session::open(&mut reg, 2).unwrap();
    let d = store.send_at(&reg, 1, 2, "hi".to_string(), 1000).unwrap();
    assert_eq!(d.message.sender_id, 1);
    assert_eq!(d.message.receiver_id, 2);
    assert_eq!(d.message.content, "hi");
    assert_eq!(d.message.timestamp, 1000);
    assert_eq!(d.targets, vec![b.channel, a.channel]);
    assert_eq!(
        d.event,
        "{\"type\":\"message\",\"payload\":{\"id\":1,\"sender_id\":1,\"receiver_id\":2,\"content\":\"hi\",\"timestamp\":1000}}"
    );
    let h = store.history(1, 2, DEFAULT_HISTORY_LIMIT);
    assert_eq!(h.len(), 1);
    assert_eq!(h[0].content, "hi");
    assert_eq!(h[0].sender_id, 1);
    assert_eq!(h[0].timestamp, 1000);
}

#[test]
fn only_connected_users_are_targets() {
    let mut store = matched_store(1, 2);
    let mut reg = Registry::new();
    let (b, _) = Session::open(&mut reg, 2).unwrap();
    let d = store.send_at(&reg, 1, 2, "x".to_string(), 1).unwrap();
    assert_eq!(d.targets, vec![b.channel]);
}
