use pipl::{Name, NameStore};

#[test]
fn new_names_take_new_slots() {
    let mut s: NameStore<&str> = NameStore::new();
    let a = s.new_name_with("a");
    let b = s.new_name();
    assert_eq!(a, Name::new(0, 0));
    assert_eq!(b, Name::new(1, 1));
    assert_eq!(s.get_value(&a), Some(&"a"));
    assert_eq!(s.get_value(&b), None);
}

#[test]
fn dup_name_shares_slot() {
    let mut s: NameStore<&str> = NameStore::new();
    let a = s.new_name_with("a");
    let d = s.dup_name(&a);
    assert_eq!(d, Name::new(0, 1));
    assert_ne!(a, d);
    assert_eq!(s.get_value(&d), Some(&"a"));
}

#[test]
fn names_order_by_slot_then_instance() {
    assert!(Name::new(0, 5).less_than(&Name::new(1, 0)));
    assert!(Name::new(1, 0).less_than(&Name::new(1, 1)));
    assert!(!Name::new(1, 1).less_than(&Name::new(1, 1)));
    assert!(Name::new(0, 5) < Name::new(1, 0));
}
