use kvdb_lib::bench::{drain_range, effective_iterations, fill_range, lookup_range};
use kvdb_lib::Storage;

#[test]
fn exercise_values_are_the_rendered_digits() {
    let mut s = Storage::new();
    fill_range(&mut s, 13);
    assert_eq!(s.get(&0), Some("value000".to_string()));
    assert_eq!(s.get(&7), Some("value777".to_string()));
    assert_eq!(s.get(&12), Some("value121212".to_string()));
}

#[test]
fn bulk_fill_lookup_drain_round_trip() {
    let count: u64 = 100;
    let mut s = Storage::new();
    fill_range(&mut s, count);
    for i in 0..count {
        assert_eq!(s.get(&i), Some(format!("value{}{}{}", i, i, i)));
    }
    assert!(lookup_range(&s, count));
    assert_eq!(s.get_all().len(), count as usize);
    drain_range(&mut s, count);
    for i in 0..count {
        assert_eq!(s.get(&i), None);
    }
    assert!(s.get_all().is_empty());
}

#[test]
fn lookup_range_reports_a_missing_key() {
    let mut s = Storage::new();
    fill_range(&mut s, 10);
    s.remove(4);
    assert!(!lookup_range(&s, 10));
    assert!(lookup_range(&s, 4));
}

#[test]
fn fill_keeps_entries_above_the_range() {
    let mut s = Storage::new();
    s.set(1000, "outside".to_string());
    fill_range(&mut s, 5);
    assert_eq!(s.get(&1000), Some("outside".to_string()));
    drain_range(&mut s, 5);
    assert_eq!(s.get(&1000), Some("outside".to_string()));
    assert_eq!(s.get_all(), vec![(1000, "outside".to_string())]);
}

#[test]
fn zero_count_phases_do_nothing() {
    let mut s = Storage::new();
    s.set(2, "kept".to_string());
    fill_range(&mut s, 0);
    assert!(lookup_range(&s, 0));
    drain_range(&mut s, 0);
    assert_eq!(s.get_all(), vec![(2, "kept".to_string())]);
}

#[test]
fn unreasonable_iteration_counts_fall_back_to_the_default() {
    assert_eq!(effective_iterations(-5), 100_000_000);
    assert_eq!(effective_iterations(0), 100_000_000);
    assert_eq!(effective_iterations(1000), 100_000_000);
    assert_eq!(effective_iterations(1001), 1001);
    assert_eq!(effective_iterations(50_000), 50_000);
}
