use nexus_conf::sessions::{SessionEntry, SessionError, SessionRecord, SessionTable};

fn rec(id: u8, state: &[u8]) -> SessionRecord {
    SessionRecord { id: vec![id; 32], state: state.to_vec() }
}

#[test]
fn insert_then_get() {
    let mut t = SessionTable::new();
    t.insert(rec(1, b"a"));
    t.insert(rec(2, b"b"));
    assert_eq!(t.len(), 2);
    assert_eq!(t.get(&vec![1; 32]), Some(&rec(1, b"a")));
    assert_eq!(t.get(&vec![2; 32]), Some(&rec(2, b"b")));
    assert_eq!(t.get(&vec![3; 32]), None);
}

#[test]
fn insert_same_id_refreshes() {
    let mut t = SessionTable::new();
    t.insert(rec(1, b"old"));
    t.insert(rec(1, b"new"));
    assert_eq!(t.len(), 1);
    assert_eq!(t.get(&vec![1; 32]), Some(&rec(1, b"new")));
}

#[test]
fn entries_with_matching_keys_load() {
    let entries = vec![
        SessionEntry { key: vec![1; 32], record: rec(1, b"x") },
        SessionEntry { key: vec![2; 32], record: rec(2, b"y") },
    ];
    let t = SessionTable::from_entries(entries).unwrap();
    assert_eq!(t.records, vec![rec(1, b"x"), rec(2, b"y")]);
    for r in t.records.iter() {
        assert_eq!(t.get(&r.id), Some(r));
    }
}

#[test]
fn mismatched_key_is_corrupt_state() {
    let entries = vec![SessionEntry { key: vec![9; 32], record: rec(1, b"x") }];
    assert_eq!(SessionTable::from_entries(entries), Err(SessionError::CorruptState));
}

#[test]
fn repeated_key_is_corrupt_state() {
    let entries = vec![
        SessionEntry { key: vec![1; 32], record: rec(1, b"x") },
        SessionEntry { key: vec![1; 32], record: rec(1, b"y") },
    ];
    assert_eq!(SessionTable::from_entries(entries), Err(SessionError::CorruptState));
}

#[test]
fn empty_entries_give_empty_table() {
    let t = SessionTable::from_entries(Vec::new()).unwrap();
    assert_eq!(t.len(), 0);
}
