use smql::storage::{MemoryStorage, Storage};
use smql::{Message, MessageState};
use uuid::Uuid;

fn text_of(id: u128) -> String {
    Uuid::from_u128(id).to_string()
}

fn message(id: u128, body: &str) -> Message {
    Message::with_id(id, body.to_string())
}

fn bodies(messages: &[Message]) -> Vec<String> {
    messages.iter().map(|m| m.body.clone()).collect()
}

fn ids(messages: &[Message]) -> Vec<u128> {
    messages.iter().map(|m| m.id).collect()
}

fn store_with(count: u128) -> MemoryStorage {
    let mut store = MemoryStorage::new();
    for n in 1..=count {
        store.add(message(n, &format!("m{n}"))).unwrap();
    }
    store
}

#[test]
fn new_store_is_empty() {
    let mut store = MemoryStorage::new();
    assert!(store.peek(10).unwrap().is_empty());
    assert!(store.get(10).unwrap().is_empty());
}

#[test]
fn add_appends_to_the_tail() {
    let mut store = MemoryStorage::new();
    store.add(message(1, "A")).unwrap();
    store.add(message(2, "B")).unwrap();
    store.add(message(3, "C")).unwrap();
    let shown = store.peek(10).unwrap();
    assert_eq!(bodies(&shown), vec!["A", "B", "C"]);
    assert_eq!(ids(&shown), vec![1, 2, 3]);
}

#[test]
fn lifecycle_scenario() {
    let mut store = MemoryStorage::new();
    store.add(message(0xa, "A")).unwrap();
    store.add(message(0xb, "B")).unwrap();
    assert_eq!(bodies(&store.peek(10).unwrap()), vec!["A", "B"]);

    let leased = store.get(1).unwrap();
    assert_eq!(leased.len(), 1);
    assert_eq!(leased[0].body, "A");
    assert_eq!(leased[0].id, 0xa);
    assert_eq!(leased[0].state, MessageState::Processing);
    assert_eq!(bodies(&store.peek(10).unwrap()), vec!["B"]);

    store.retry(vec![text_of(0xa)]).unwrap();
    let waiting = store.peek(10).unwrap();
    assert_eq!(bodies(&waiting), vec!["B", "A"]);
    assert_eq!(waiting[1].retry_count, 1);
    assert_eq!(waiting[1].state, MessageState::Ready);
    assert_eq!(waiting[0].retry_count, 0);

    let leased = store.get(2).unwrap();
    assert_eq!(bodies(&leased), vec!["B", "A"]);
    assert_eq!(leased[0].state, MessageState::Processing);
    assert_eq!(leased[1].state, MessageState::Processing);
    assert_eq!(leased[1].retry_count, 1);
    assert!(store.peek(10).unwrap().is_empty());

    store.delete(vec![text_of(0xb)]).unwrap();
    store.purge().unwrap();
    assert!(store.peek(10).unwrap().is_empty());
    store.retry(vec![text_of(0xa), text_of(0xb)]).unwrap();
    assert!(store.peek(10).unwrap().is_empty());
}

#[test]
fn delete_leaves_the_other_leased_message_in_flight() {
    let mut store = MemoryStorage::new();
    store.add(message(0xa, "A")).unwrap();
    store.add(message(0xb, "B")).unwrap();
    store.get(2).unwrap();
    store.delete(vec![text_of(0xb)]).unwrap();
    store.retry(vec![text_of(0xb), text_of(0xa)]).unwrap();
    let waiting = store.peek(10).unwrap();
    assert_eq!(bodies(&waiting), vec!["A"]);
    assert_eq!(waiting[0].retry_count, 1);
}

#[test]
fn get_takes_no_more_than_there_is() {
    let mut store = store_with(3);
    let leased = store.get(5).unwrap();
    assert_eq!(ids(&leased), vec![1, 2, 3]);
    assert!(store.get(1).unwrap().is_empty());
}

#[test]
fn get_of_none_takes_nothing() {
    let mut store = store_with(2);
    assert!(store.get(0).unwrap().is_empty());
    assert_eq!(ids(&store.peek(10).unwrap()), vec![1, 2]);
}

#[test]
fn get_hands_out_in_queue_order_and_marks_processing() {
    let mut store = store_with(4);
    let leased = store.get(3).unwrap();
    assert_eq!(ids(&leased), vec![1, 2, 3]);
    assert!(leased.iter().all(|m| m.state == MessageState::Processing));
    assert!(leased.iter().all(|m| m.retry_count == 0));
    assert_eq!(ids(&store.peek(10).unwrap()), vec![4]);
}

#[test]
fn leases_never_overlap() {
    let mut store = store_with(5);
    let first = ids(&store.get(2).unwrap());
    let second = ids(&store.get(2).unwrap());
    let third = ids(&store.get(5).unwrap());
    assert_eq!(first, vec![1, 2]);
    assert_eq!(second, vec![3, 4]);
    assert_eq!(third, vec![5]);
    for id in &first {
        assert!(!second.contains(id));
        assert!(!third.contains(id));
    }
    for id in &second {
        assert!(!third.contains(id));
    }
}

#[test]
fn leased_message_is_not_leased_again_until_released() {
    let mut store = store_with(2);
    let first = ids(&store.get(1).unwrap());
    store.add(message(9, "late")).unwrap();
    let second = ids(&store.get(10).unwrap());
    assert_eq!(first, vec![1]);
    assert_eq!(second, vec![2, 9]);
    store.retry(vec![text_of(1)]).unwrap();
    assert_eq!(ids(&store.get(10).unwrap()), vec![1]);
}

#[test]
fn messages_are_conserved_on_concrete_run() {
    let mut store = store_with(6);
    let leased = store.get(4).unwrap();
    assert_eq!(leased.len(), 4);
    store.retry(vec![text_of(2)]).unwrap();
    store.delete(vec![text_of(1), text_of(3), text_of(77)]).unwrap();
    // six added, two acknowledged: three wait, one is in flight
    assert_eq!(ids(&store.peek(10).unwrap()), vec![5, 6, 2]);
    store.retry(vec![text_of(1), text_of(2), text_of(3), text_of(4)]).unwrap();
    assert_eq!(ids(&store.peek(10).unwrap()), vec![5, 6, 2, 4]);
    store.purge().unwrap();
    assert!(store.get(10).unwrap().is_empty());
}

#[test]
fn delete_twice_changes_nothing_the_second_time() {
    let mut store = store_with(3);
    store.get(2).unwrap();
    assert!(store.delete(vec![text_of(1)]).is_ok());
    assert!(store.delete(vec![text_of(1)]).is_ok());
    assert_eq!(ids(&store.peek(10).unwrap()), vec![3]);
    store.retry(vec![text_of(1), text_of(2)]).unwrap();
    assert_eq!(ids(&store.peek(10).unwrap()), vec![3, 2]);
}

#[test]
fn delete_of_waiting_or_unknown_id_changes_nothing() {
    let mut store = store_with(3);
    store.get(1).unwrap();
    assert!(store.delete(vec![text_of(2), text_of(99), "no id at all".to_string()]).is_ok());
    assert_eq!(ids(&store.peek(10).unwrap()), vec![2, 3]);
    store.retry(vec![text_of(1)]).unwrap();
    assert_eq!(ids(&store.peek(10).unwrap()), vec![2, 3, 1]);
}

#[test]
fn delete_of_empty_list_succeeds() {
    let mut store = store_with(1);
    store.get(1).unwrap();
    assert!(store.delete(Vec::new()).is_ok());
    store.retry(vec![text_of(1)]).unwrap();
    assert_eq!(ids(&store.peek(10).unwrap()), vec![1]);
}

#[test]
fn delete_matches_the_canonical_text_only() {
    let id = 0xa1a2a3a4_b1b2_c1c2_d1d2_d3d4d5d6d7d8u128;
    let mut store = MemoryStorage::new();
    store.add(message(id, "A")).unwrap();
    store.get(1).unwrap();
    store
        .delete(vec![
            "A1A2A3A4-B1B2-C1C2-D1D2-D3D4D5D6D7D8".to_string(),
            "a1a2a3a4b1b2c1c2d1d2d3d4d5d6d7d8".to_string(),
            "{a1a2a3a4-b1b2-c1c2-d1d2-d3d4d5d6d7d8}".to_string(),
            "urn:uuid:a1a2a3a4-b1b2-c1c2-d1d2-d3d4d5d6d7d8".to_string(),
        ])
        .unwrap();
    store.retry(vec!["a1a2a3a4-b1b2-c1c2-d1d2-d3d4d5d6d7d8".to_string()]).unwrap();
    assert_eq!(ids(&store.peek(10).unwrap()), vec![id]);
}

#[test]
fn retry_returns_message_with_one_more_retry() {
    let mut store = MemoryStorage::new();
    store.add(message(7, "payload")).unwrap();
    let leased = store.get(1).unwrap();
    assert_eq!(leased[0].retry_count, 0);
    store.retry(vec![text_of(7)]).unwrap();
    let again = store.get(1).unwrap();
    assert_eq!(again.len(), 1);
    assert_eq!(again[0].id, 7);
    assert_eq!(again[0].body, "payload");
    assert_eq!(again[0].retry_count, 1);
    assert_eq!(again[0].state, MessageState::Processing);
    assert_eq!(again[0].lock_until, None);
    store.retry(vec![text_of(7)]).unwrap();
    assert_eq!(store.peek(1).unwrap()[0].retry_count, 2);
}

#[test]
fn retry_goes_to_the_tail_in_the_order_of_the_list() {
    let mut store = store_with(5);
    store.get(3).unwrap();
    store.retry(vec![text_of(3), text_of(1)]).unwrap();
    assert_eq!(ids(&store.peek(10).unwrap()), vec![4, 5, 3, 1]);
    store.retry(vec![text_of(2)]).unwrap();
    assert_eq!(ids(&store.peek(10).unwrap()), vec![4, 5, 3, 1, 2]);
}

#[test]
fn retry_of_a_repeated_id_releases_once() {
    let mut store = store_with(2);
    store.get(2).unwrap();
    store.retry(vec![text_of(1), text_of(1), text_of(2), text_of(1)]).unwrap();
    let waiting = store.peek(10).unwrap();
    assert_eq!(ids(&waiting), vec![1, 2]);
    assert_eq!(waiting[0].retry_count, 1);
    assert_eq!(waiting[1].retry_count, 1);
}

#[test]
fn retry_passes_over_waiting_and_unknown_ids() {
    let mut store = store_with(3);
    store.get(1).unwrap();
    store.retry(vec![text_of(2), text_of(42), "garbage".to_string()]).unwrap();
    let waiting = store.peek(10).unwrap();
    assert_eq!(ids(&waiting), vec![2, 3]);
    assert_eq!(waiting[0].retry_count, 0);
}

#[test]
fn retry_count_stops_at_the_largest_value() {
    let mut store = MemoryStorage::new();
    let mut msg = message(5, "worn");
    msg.retry_count = i32::MAX - 1;
    store.add(msg).unwrap();
    store.get(1).unwrap();
    store.retry(vec![text_of(5)]).unwrap();
    assert_eq!(store.peek(1).unwrap()[0].retry_count, i32::MAX);
    store.get(1).unwrap();
    store.retry(vec![text_of(5)]).unwrap();
    assert_eq!(store.peek(1).unwrap()[0].retry_count, i32::MAX);
}

#[test]
fn peek_is_repeatable_and_changes_nothing() {
    let store = store_with(3);
    let first = store.peek(2).unwrap();
    let second = store.peek(2).unwrap();
    assert_eq!(ids(&first), vec![1, 2]);
    assert_eq!(ids(&second), vec![1, 2]);
    assert!(first.iter().all(|m| m.state == MessageState::Ready));
    assert!(second.iter().all(|m| m.state == MessageState::Ready));
    assert_eq!(store.peek(10).unwrap().len(), 3);
    let mut store = store;
    assert_eq!(ids(&store.get(2).unwrap()), vec![1, 2]);
}

#[test]
fn peek_shows_no_more_than_there_is() {
    let store = store_with(2);
    assert_eq!(store.peek(0).unwrap().len(), 0);
    assert_eq!(store.peek(1).unwrap().len(), 1);
    assert_eq!(store.peek(2).unwrap().len(), 2);
    assert_eq!(store.peek(usize::MAX).unwrap().len(), 2);
}

#[test]
fn purge_clears_both_partitions() {
    let mut store = store_with(4);
    store.get(2).unwrap();
    assert!(store.purge().is_ok());
    assert!(store.peek(10).unwrap().is_empty());
    store.retry(vec![text_of(1), text_of(2)]).unwrap();
    assert!(store.peek(10).unwrap().is_empty());
    assert!(store.purge().is_ok());
}

#[test]
fn a_repeated_identifier_is_held_once_in_flight() {
    let mut store = MemoryStorage::new();
    store.add(message(1, "first")).unwrap();
    store.add(message(1, "second")).unwrap();
    let leased = store.get(2).unwrap();
    assert_eq!(bodies(&leased), vec!["first", "second"]);
    store.retry(vec![text_of(1)]).unwrap();
    assert_eq!(bodies(&store.peek(10).unwrap()), vec!["second"]);
}

#[test]
fn add_keeps_the_message_as_given() {
    let mut store = MemoryStorage::new();
    let mut msg = message(3, "kept");
    msg.lock_until = Some(17);
    msg.retry_count = 4;
    store.add(msg).unwrap();
    let shown = store.peek(1).unwrap();
    assert_eq!(shown[0].id, 3);
    assert_eq!(shown[0].body, "kept");
    assert_eq!(shown[0].lock_until, Some(17));
    assert_eq!(shown[0].retry_count, 4);
    assert_eq!(shown[0].state, MessageState::Ready);
}

#[test]
fn default_store_is_empty() {
    let mut store = MemoryStorage::default();
    assert!(store.peek(10).unwrap().is_empty());
    assert!(store.get(10).unwrap().is_empty());
}
