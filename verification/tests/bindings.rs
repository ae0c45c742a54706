use pipl::bindings::Bindings;
use pipl::Name;

fn n(k: usize) -> Name {
    Name::new(k, 0)
}

#[test]
fn unbound_name_stands_for_itself() {
    let b = Bindings::new();
    assert_eq!(b.get_name(&n(4)), n(4));
}

#[test]
fn set_then_get() {
    let mut b = Bindings::new();
    b.set_name(n(1), n(10));
    b.set_name(n(1), n(11));
    assert_eq!(b.get_name(&n(1)), n(11));
    assert_eq!(b.get_names(&[n(1), n(2)]), vec![n(11), n(2)]);
}

#[test]
fn set_names_pairs_up_to_shorter_list() {
    let mut b = Bindings::new();
    b.set_names(&[n(1), n(2), n(3)], vec![n(11), n(12)]);
    assert_eq!(b.get_names(&[n(1), n(2), n(3)]), vec![n(11), n(12), n(3)]);
}

#[test]
fn later_pair_wins() {
    let mut b = Bindings::new();
    b.set_names(&[n(1), n(1)], vec![n(11), n(12)]);
    assert_eq!(b.get_name(&n(1)), n(12));
}

#[test]
fn clone_refs_in_key_order() {
    let mut b = Bindings::new();
    b.set_name(n(3), n(13));
    b.set_name(n(1), n(11));
    b.set_name(n(2), n(12));
    assert_eq!(b.clone_refs(), vec![(n(1), n(11)), (n(2), n(12)), (n(3), n(13))]);
    let c = b.clone();
    assert_eq!(c.get_name(&n(2)), n(12));
}
