use std::cell::RefCell;
use std::rc::Rc;

use pipl::handoff::Pipl;
use pipl::Name;

#[test]
fn sender_hands_names_to_reader() {
    let got = Rc::new(RefCell::new(Vec::new()));
    let x = Name::new(0, 0);
    let a = Name::new(1, 0);
    {
        let got2 = got.clone();
        let mut pipl = Pipl::new();
        pipl.read(&x, move |names| got2.borrow_mut().extend(names));
        pipl.step();
        pipl.send(&x, move || vec![a]);
        pipl.step();
        pipl.step();
    }
    assert_eq!(*got.borrow(), vec![a]);
}
