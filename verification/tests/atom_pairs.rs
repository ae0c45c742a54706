use pipl::atom_pipl::Reaction;
use pipl::{connect, AtomCreator};

#[test]
fn positive_then_negative_pair_up() {
    let mut pipl = connect();
    let w = pipl.atom();
    assert_eq!(pipl.add_positive(w, 1), None);
    assert_eq!(pipl.add_negative(w, 2), Some(Reaction { positive: 1, negative: 2 }));
}

#[test]
fn negative_then_positive_pair_up() {
    let mut pipl = connect();
    let w = pipl.atom();
    assert_eq!(pipl.add_negative(w, 1), None);
    assert_eq!(pipl.add_positive(w, 2), Some(Reaction { positive: 2, negative: 1 }));
}

#[test]
fn same_sign_keeps_waiting() {
    let mut pipl = connect();
    let w = pipl.atom();
    assert_eq!(pipl.add_positive(w, 1), None);
    assert_eq!(pipl.add_positive(w, 2), None);
    assert_eq!(pipl.add_negative(w, 3), Some(Reaction { positive: 1, negative: 3 }));
    assert_eq!(pipl.add_negative(w, 4), Some(Reaction { positive: 2, negative: 4 }));
    assert_eq!(pipl.add_negative(w, 5), None);
}

#[test]
fn different_atoms_do_not_meet() {
    let mut pipl = connect();
    let v = pipl.atom();
    let w = pipl.atom();
    assert_ne!(v, w);
    assert_eq!(pipl.add_positive(v, 1), None);
    assert_eq!(pipl.add_negative(w, 2), None);
    assert_eq!(pipl.add_negative(v, 3), Some(Reaction { positive: 1, negative: 3 }));
    assert_eq!(pipl.add_positive(w, 4), Some(Reaction { positive: 4, negative: 2 }));
}

#[test]
fn atoms_count_up() {
    let mut creator = AtomCreator::new();
    let a = creator.create();
    let b = creator.create();
    let c = creator.create();
    assert_eq!(format!("{:?}", a), "Atom(0)");
    assert_eq!(format!("{:?}", b), "Atom(1)");
    assert_eq!(format!("{:?}", c), "Atom(2)");
}
