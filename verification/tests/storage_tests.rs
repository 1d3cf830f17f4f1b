use kvdb_lib::Storage;

#[test]
fn read_after_write() {
    let mut s = Storage::new();
    s.set(5, "hello".to_string());
    assert_eq!(s.get(&5), Some("hello".to_string()));
}

#[test]
fn overwrite_keeps_second_value_only() {
    let mut s = Storage::new();
    s.set(7, "first".to_string());
    s.set(7, "second".to_string());
    assert_eq!(s.get(&7), Some("second".to_string()));
    let all = s.get_all();
    assert_eq!(all.len(), 1);
    assert_eq!(all[0], (7, "second".to_string()));
}

#[test]
fn insert_then_remove_leaves_key_absent() {
    let mut s = Storage::new();
    s.set(3, "gone".to_string());
    s.remove(3);
    assert_eq!(s.get(&3), None);
}

#[test]
fn remove_of_absent_key_is_a_noop() {
    let mut s = Storage::new();
    s.set(1, "kept".to_string());
    s.remove(99);
    assert_eq!(s.get(&1), Some("kept".to_string()));
    let all = s.get_all();
    assert_eq!(all.len(), 1);
    assert_eq!(all[0], (1, "kept".to_string()));
}

#[test]
fn enumeration_is_complete_and_duplicate_free() {
    let mut s = Storage::new();
    s.set(10, "ten".to_string());
    s.set(20, "twenty".to_string());
    s.set(30, "thirty".to_string());
    let mut all = s.get_all();
    assert_eq!(all.len(), 3);
    all.sort();
    assert_eq!(
        all,
        vec![
            (10, "ten".to_string()),
            (20, "twenty".to_string()),
            (30, "thirty".to_string()),
        ]
    );
}

#[test]
fn same_key_inserts_leave_last_written_value() {
    let mut s = Storage::new();
    s.set(4, "from-a".to_string());
    s.set(4, "from-b".to_string());
    let got = s.get(&4);
    assert!(got == Some("from-a".to_string()) || got == Some("from-b".to_string()));
    assert_eq!(got, Some("from-b".to_string()));
}

#[test]
fn scenario_two_keys_then_remove_one() {
    let mut s = Storage::new();
    s.set(1, "a".to_string());
    s.set(2, "b".to_string());
    assert_eq!(s.get(&1), Some("a".to_string()));
    let mut all = s.get_all();
    all.sort();
    assert_eq!(all, vec![(1, "a".to_string()), (2, "b".to_string())]);
    s.remove(1);
    assert_eq!(s.get(&1), None);
    assert_eq!(s.get_all(), vec![(2, "b".to_string())]);
}

#[test]
fn empty_store_has_nothing() {
    let s = Storage::new();
    assert_eq!(s.get(&0), None);
    assert!(s.get_all().is_empty());
}
