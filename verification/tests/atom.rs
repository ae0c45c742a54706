use pipl::AtomCreator;

#[test]
fn atoms_are_distinct() {
    let mut subject = AtomCreator::new();
    assert!(subject.create() != subject.create());
}

#[test]
fn atoms_can_move() {
    let subject = AtomCreator::new().create();
    let x1 = subject;
    assert_eq!(subject, x1);
}
