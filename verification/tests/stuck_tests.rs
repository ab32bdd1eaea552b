use mir::stuck::StuckTable;

#[test]
fn insert_overwrites_the_entry_at_a_cell() {
    let mut t = StuckTable::new();
    t.insert(1, 2, 'a', 0, 0);
    assert_eq!(t.len(), 1);
    t.insert(1, 2, 'b', 5, 0);
    assert_eq!(t.len(), 1);
    assert_eq!(t.entries[0].glyph, 'b');
    assert_eq!(t.entries[0].at_ms, 5);
    assert!(t.contains(1, 2));
}

#[test]
fn insert_beyond_capacity_is_a_silent_no_op() {
    let mut t = StuckTable::new();
    t.insert(0, 0, 'a', 0, 2);
    t.insert(0, 1, 'b', 0, 2);
    assert_eq!(t.len(), 2);
    t.insert(0, 2, 'c', 0, 2);
    assert_eq!(t.len(), 2);
    assert!(t.contains(0, 0));
    assert!(t.contains(0, 1));
    assert!(!t.contains(0, 2));
    // at capacity even the entry already present is left as it is
    t.insert(0, 0, 'z', 9, 2);
    assert_eq!(t.entries[0].glyph, 'a');
    assert_eq!(t.entries[0].at_ms, 0);
}

#[test]
fn zero_capacity_means_unbounded() {
    let mut t = StuckTable::new();
    for row in 0..100u16 {
        t.insert(0, row, 'x', 0, 0);
    }
    assert_eq!(t.len(), 100);
}

#[test]
fn purge_removes_entries_older_than_the_window() {
    let mut t = StuckTable::new();
    t.insert(0, 0, 'a', 0, 0);
    t.insert(0, 1, 'b', 6_000, 0);
    t.purge(9_999);
    assert_eq!(t.len(), 2);
    t.purge(10_000);
    assert_eq!(t.len(), 1);
    assert!(!t.contains(0, 0));
    assert!(t.contains(0, 1));
    t.purge(20_000);
    assert_eq!(t.len(), 0);
}

#[test]
fn remove_deletes_only_the_named_cell() {
    let mut t = StuckTable::new();
    t.insert(3, 4, 'a', 0, 0);
    t.insert(5, 6, 'b', 0, 0);
    t.remove(3, 4);
    assert!(!t.contains(3, 4));
    assert!(t.contains(5, 6));
    assert_eq!(t.len(), 1);
    // removing an absent cell changes nothing
    t.remove(3, 4);
    assert_eq!(t.len(), 1);
}

#[test]
fn clear_empties_the_table() {
    let mut t = StuckTable::new();
    t.insert(0, 0, 'a', 0, 0);
    t.insert(1, 1, 'b', 0, 0);
    t.clear();
    assert_eq!(t.len(), 0);
    assert!(!t.contains(0, 0));
}
