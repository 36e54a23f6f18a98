use desktop_gpui::index_set::IndexSet;

#[test]
fn insert_remove_contains() {
    let mut s = IndexSet::new();
    assert!(s.is_empty());
    s.insert(5);
    s.insert(2);
    s.insert(5);
    assert_eq!(s.len(), 2);
    assert_eq!(s.count(), 2);
    assert!(s.contains(2) && s.contains(5) && !s.contains(3));
    assert_eq!(s.get(0), 2);
    assert_eq!(s.get(1), 5);
    s.remove(2);
    s.remove(9);
    assert_eq!(s.len(), 1);
    assert!(!s.contains(2));
    s.clear();
    assert!(s.is_empty());
}

#[test]
fn inclusive_range() {
    let s = IndexSet::range_inclusive(3, 6);
    assert_eq!(s.len(), 4);
    assert!(!s.contains(2) && s.contains(3) && s.contains(6) && !s.contains(7));
    let one = IndexSet::range_inclusive(4, 4);
    assert_eq!(one.len(), 1);
    assert_eq!(one.get(0), 4);
}
