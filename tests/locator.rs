use cg_final::locator::Locator;

#[test]
fn find_on_empty_locator() {
    let l: Locator<String> = Locator::new();
    assert!(l.find(1).is_none());
}

#[test]
fn add_then_find() {
    let mut l: Locator<String> = Locator::new();
    l.add(1, "one".to_string());
    l.add(2, "two".to_string());
    assert_eq!(l.find(1).map(|s| s.as_str()), Some("one"));
    assert_eq!(l.find(2).map(|s| s.as_str()), Some("two"));
    assert!(l.find(3).is_none());
}

#[test]
fn add_with_equal_key_replaces() {
    let mut l: Locator<u32> = Locator::new();
    l.add(7, 1);
    l.add(7, 2);
    assert_eq!(l.find(7), Some(&2));
}

#[test]
fn find_mut_changes_in_place() {
    let mut l: Locator<u32> = Locator::new();
    l.add(7, 1);
    *l.find_mut(7).unwrap() += 10;
    assert_eq!(l.find(7), Some(&11));
    assert!(l.find_mut(8).is_none());
    assert!(l.find(8).is_none());
}
