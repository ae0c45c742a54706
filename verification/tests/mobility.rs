//! Scenarios of atoms that carry other atoms.  The library pairs reactions
//! by key; the `Pipl` below keeps the callbacks under those keys and runs
//! each pair the library forms: the positive callback fills the arguments,
//! the negative one receives them.
use std::cell::RefCell;
use std::collections::HashMap;
use std::rc::Rc;

use pipl::atom_pipl::Reaction;
use pipl::Atom;

type Positive = Box<dyn Fn(&mut Pipl, &mut Vec<Atom>)>;
type Negative = Box<dyn Fn(&mut Pipl, Vec<Atom>)>;

struct Pipl {
    inner: pipl::Pipl,
    next_key: usize,
    positives: HashMap<usize, Positive>,
    negatives: HashMap<usize, Negative>,
}

impl Pipl {
    fn connect<T: Fn(&mut Pipl)>(func: T) {
        func(&mut Pipl {
            inner: pipl::connect(),
            next_key: 0,
            positives: HashMap::new(),
            negatives: HashMap::new(),
        });
    }
    fn atom(&mut self) -> Atom {
        self.inner.atom()
    }
    fn key(&mut self) -> usize {
        let k = self.next_key;
        self.next_key += 1;
        k
    }
    fn add_positive<T: Fn(&mut Pipl, &mut Vec<Atom>) + 'static>(&mut self, atom: Atom, func: T) {
        let key = self.key();
        self.positives.insert(key, Box::new(func));
        if let Some(r) = self.inner.add_positive(atom, key) {
            self.react(r);
        }
    }
    fn add_negative<T: Fn(&mut Pipl, Vec<Atom>) + 'static>(&mut self, atom: Atom, func: T) {
        let key = self.key();
        self.negatives.insert(key, Box::new(func));
        if let Some(r) = self.inner.add_negative(atom, key) {
            self.react(r);
        }
    }
    fn react(&mut self, r: Reaction) {
        let pos = self.positives.remove(&r.positive).unwrap();
        let neg = self.negatives.remove(&r.negative).unwrap();
        let mut args = Vec::new();
        pos(self, &mut args);
        neg(self, args);
    }
}

type Results = Rc<RefCell<HashMap<&'static str, Atom>>>;

fn sorted_keys(results: &Results) -> Vec<&'static str> {
    let mut t = results.borrow().keys().map(|k| *k).collect::<Vec<&str>>();
    t.sort();
    t
}

// w(x).x[y].() w[z].z(z).()

fn wx_xy(pipl: &mut Pipl, w: Atom, results: Results) {
    pipl.add_positive(w, move |pipl, args| {
        let x = pipl.atom();
        args.push(x);
        results.borrow_mut().insert("x", x);
        let results = results.clone();
        pipl.add_negative(x, move |_pipl, args| {
            let y = args[0];
            results.borrow_mut().insert("y", y);
        });
    });
}

fn wz_zz(pipl: &mut Pipl, w: Atom, _results: Results) {
    pipl.add_negative(w, move |pipl, args| {
        let z = args[0];
        pipl.add_positive(z, move |_pipl, args| {
            args.push(z);
        });
    });
}

#[test]
fn positive_reacts_with_negative() {
    Pipl::connect(|pipl| {
        let results = Rc::new(RefCell::new(HashMap::new()));
        let w = pipl.atom();
        wx_xy(pipl, w, results.clone());
        wz_zz(pipl, w, results.clone());
        assert_eq!(vec!["x", "y"], sorted_keys(&results));
        assert_eq!(results.borrow().get("x"), results.borrow().get("y"));
    });
}

#[test]
fn negative_reacts_with_positive() {
    Pipl::connect(|pipl| {
        let results = Rc::new(RefCell::new(HashMap::new()));
        let w = pipl.atom();
        wz_zz(pipl, w, results.clone());
        wx_xy(pipl, w, results.clone());
        assert_eq!(vec!["x", "y"], sorted_keys(&results));
        assert_eq!(results.borrow().get("x"), results.borrow().get("y"));
    });
}

// w[m].m(n).() w[o].o(p).() w(z).z[z].()

fn neg_w_send(pipl: &mut Pipl, w: Atom, n1: &'static str, n2: &'static str, results: Results) {
    pipl.add_negative(w, move |pipl, args| {
        let a = args[0];
        results.borrow_mut().insert(n1, a);
        let results = results.clone();
        pipl.add_positive(a, move |pipl, args| {
            let b = pipl.atom();
            args.push(b);
            results.borrow_mut().insert(n2, b);
        });
    });
}

fn neg_wz_zz(pipl: &mut Pipl, w: Atom, results: Results) {
    pipl.add_positive(w, move |pipl, args| {
        let z = pipl.atom();
        args.push(z);
        results.borrow_mut().insert("z0", z);
        let results = results.clone();
        pipl.add_negative(z, move |_pipl, args| {
            results.borrow_mut().insert("z1", args[0]);
        });
    });
}

fn neg_run<T: Fn(&mut Pipl, Atom, Results)>(func: T) {
    Pipl::connect(|pipl| {
        let results = Rc::new(RefCell::new(HashMap::new()));
        let w = pipl.atom();
        func(pipl, w, results.clone());
        let keys = sorted_keys(&results);
        let expected_keys = if keys.contains(&"m") { vec!["m", "n", "z0", "z1"] } else { vec!["o", "p", "z0", "z1"] };
        assert_eq!(expected_keys, keys);
        assert_eq!(results.borrow().get(keys[0]), results.borrow().get("z0"));
        assert_eq!(results.borrow().get(keys[1]), results.borrow().get("z1"));
    });
}

fn neg_wm_mn(pipl: &mut Pipl, w: Atom, results: Results) {
    neg_w_send(pipl, w, "m", "n", results);
}

fn neg_wo_op(pipl: &mut Pipl, w: Atom, results: Results) {
    neg_w_send(pipl, w, "o", "p", results);
}

#[test]
fn mobility_paired_negative_moz() {
    neg_run(|pipl, w, results| {
        neg_wm_mn(pipl, w, results.clone());
        neg_wo_op(pipl, w, results.clone());
        neg_wz_zz(pipl, w, results.clone());
    });
}

#[test]
fn mobility_paired_negative_mzo() {
    neg_run(|pipl, w, results| {
        neg_wm_mn(pipl, w, results.clone());
        neg_wz_zz(pipl, w, results.clone());
        neg_wo_op(pipl, w, results.clone());
    });
}

#[test]
fn mobility_paired_negative_omz() {
    neg_run(|pipl, w, results| {
        neg_wo_op(pipl, w, results.clone());
        neg_wm_mn(pipl, w, results.clone());
        neg_wz_zz(pipl, w, results.clone());
    });
}

#[test]
fn mobility_paired_negative_ozm() {
    neg_run(|pipl, w, results| {
        neg_wo_op(pipl, w, results.clone());
        neg_wz_zz(pipl, w, results.clone());
        neg_wm_mn(pipl, w, results.clone());
    });
}

#[test]
fn mobility_paired_negative_zmo() {
    neg_run(|pipl, w, results| {
        neg_wz_zz(pipl, w, results.clone());
        neg_wm_mn(pipl, w, results.clone());
        neg_wo_op(pipl, w, results.clone());
    });
}

#[test]
fn mobility_paired_negative_zom() {
    neg_run(|pipl, w, results| {
        neg_wz_zz(pipl, w, results.clone());
        neg_wo_op(pipl, w, results.clone());
        neg_wm_mn(pipl, w, results.clone());
    });
}

// w(m).m[n].() w(o).o[p].() w[z].z(z).()

fn pos_w_read(pipl: &mut Pipl, w: Atom, n1: &'static str, n2: &'static str, results: Results) {
    pipl.add_positive(w, move |pipl, args| {
        let a = pipl.atom();
        args.push(a);
        results.borrow_mut().insert(n1, a);
        let results = results.clone();
        pipl.add_negative(a, move |_pipl, args| {
            results.borrow_mut().insert(n2, args[0]);
        });
    });
}

fn pos_wz_zz(pipl: &mut Pipl, w: Atom, results: Results) {
    pipl.add_negative(w, move |pipl, args| {
        let z = args[0];
        results.borrow_mut().insert("z", z);
        pipl.add_positive(z, move |_pipl, args| {
            args.push(z);
        });
    });
}

fn pos_run<T: Fn(&mut Pipl, Atom, Results)>(func: T) {
    Pipl::connect(|pipl| {
        let results = Rc::new(RefCell::new(HashMap::new()));
        let w = pipl.atom();
        func(pipl, w, results.clone());
        let keys = sorted_keys(&results);
        let expected_keys = if keys.contains(&"m") { vec!["m", "n", "z"] } else { vec!["o", "p", "z"] };
        assert_eq!(expected_keys, keys);
        assert_eq!(results.borrow().get("z"), results.borrow().get(keys[0]));
        assert_eq!(results.borrow().get("z"), results.borrow().get(keys[1]));
    });
}

fn pos_wm_mn(pipl: &mut Pipl, w: Atom, results: Results) {
    pos_w_read(pipl, w, "m", "n", results);
}

fn pos_wo_op(pipl: &mut Pipl, w: Atom, results: Results) {
    pos_w_read(pipl, w, "o", "p", results);
}

#[test]
fn mobility_paired_positive_moz() {
    pos_run(|pipl, w, results| {
        pos_wm_mn(pipl, w, results.clone());
        pos_wo_op(pipl, w, results.clone());
        pos_wz_zz(pipl, w, results.clone());
    });
}

#[test]
fn mobility_paired_positive_mzo() {
    pos_run(|pipl, w, results| {
        pos_wm_mn(pipl, w, results.clone());
        pos_wz_zz(pipl, w, results.clone());
        pos_wo_op(pipl, w, results.clone());
    });
}

#[test]
fn mobility_paired_positive_omz() {
    pos_run(|pipl, w, results| {
        pos_wo_op(pipl, w, results.clone());
        pos_wm_mn(pipl, w, results.clone());
        pos_wz_zz(pipl, w, results.clone());
    });
}

#[test]
fn mobility_paired_positive_ozm() {
    pos_run(|pipl, w, results| {
        pos_wo_op(pipl, w, results.clone());
        pos_wz_zz(pipl, w, results.clone());
        pos_wm_mn(pipl, w, results.clone());
    });
}

#[test]
fn mobility_paired_positive_zmo() {
    pos_run(|pipl, w, results| {
        pos_wz_zz(pipl, w, results.clone());
        pos_wm_mn(pipl, w, results.clone());
        pos_wo_op(pipl, w, results.clone());
    });
}

#[test]
fn mobility_paired_positive_zom() {
    pos_run(|pipl, w, results| {
        pos_wz_zz(pipl, w, results.clone());
        pos_wo_op(pipl, w, results.clone());
        pos_wm_mn(pipl, w, results.clone());
    });
}
