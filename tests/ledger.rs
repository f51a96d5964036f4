use summarize_bot::ledger::Ledger;

#[test]
fn keeps_latest_most_recent_first() {
    let mut ledger = Ledger::new(3);
    for id in [10, 11, 12, 13] {
        ledger.add_message_id(7, id);
    }
    assert_eq!(ledger.get_messages_id(7, 2), vec![13, 12]);
    assert_eq!(ledger.get_messages_id(7, 3), vec![13, 12, 11]);
    assert_eq!(ledger.get_messages_id(7, 100), vec![13, 12, 11]);
}

#[test]
fn unseen_chat_is_empty() {
    let ledger = Ledger::new(200);
    assert!(ledger.get_messages_id(1, 10).is_empty());
}

#[test]
fn fewer_than_capacity() {
    let mut ledger = Ledger::new(200);
    ledger.add_message_id(-100, 5);
    ledger.add_message_id(-100, 6);
    assert_eq!(ledger.get_messages_id(-100, 200), vec![6, 5]);
    assert_eq!(ledger.get_messages_id(-100, 0), Vec::<i32>::new());
}

#[test]
fn chats_are_separate() {
    let mut ledger = Ledger::new(2);
    ledger.add_message_id(1, 1);
    ledger.add_message_id(2, 2);
    ledger.add_message_id(1, 3);
    ledger.add_message_id(1, 4);
    assert_eq!(ledger.get_messages_id(1, 2), vec![4, 3]);
    assert_eq!(ledger.get_messages_id(2, 2), vec![2]);
    assert_eq!(ledger.capacity(), 2);
}

#[test]
fn capacity_with_many_inserts() {
    let mut ledger = Ledger::new(200);
    for id in 0..1000 {
        ledger.add_message_id(3, id);
    }
    let got = ledger.get_messages_id(3, 200);
    assert_eq!(got.len(), 200);
    assert_eq!(got[0], 999);
    assert_eq!(got[199], 800);
}
