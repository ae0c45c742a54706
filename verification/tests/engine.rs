use std::cell::RefCell;
use std::rc::Rc;

use pipl::builder::PiplBuilder;
use pipl::call::{Call, CallFrame};
use pipl::engine::Pipl;
use pipl::Name;

/// Records the value that `name` stands for whenever it runs.
struct Record {
    name: Name,
    seen: Rc<RefCell<Vec<String>>>,
}

impl Call<String> for Record {
    fn call(&self, frame: &mut CallFrame<String>) {
        let v = frame.get_value(&self.name).cloned().unwrap_or_else(|| "?".to_string());
        self.seen.borrow_mut().push(v);
    }
}

/// Records a fixed word whenever it runs.
struct Mark {
    word: &'static str,
    seen: Rc<RefCell<Vec<String>>>,
}

impl Call<String> for Mark {
    fn call(&self, _frame: &mut CallFrame<String>) {
        self.seen.borrow_mut().push(self.word.to_string());
    }
}

#[test]
fn echo_reads_what_is_sent() {
    let seen = Rc::new(RefCell::new(Vec::new()));
    let mut pipl: Pipl<String> = Pipl::new();
    let mut builder = PiplBuilder::new();
    let echo = pipl.new_name("echo".to_string());
    let arg = pipl.new_name("arg".to_string());
    builder
        .read(&echo)
        .names(&[&arg])
        .repeat()
        .call(Box::new(Record { name: arg, seen: seen.clone() }));
    let hello = pipl.new_name("hello".to_string());
    builder.send(&echo).names(&[&hello]);
    builder.apply(&mut pipl);
    pipl.step();
    assert_eq!(*seen.borrow(), vec!["hello".to_string()]);
    let world = pipl.new_name("world".to_string());
    builder.send(&echo).names(&[&world]);
    builder.apply(&mut pipl);
    pipl.step();
    assert_eq!(*seen.borrow(), vec!["hello".to_string(), "world".to_string()]);
}

#[test]
fn step_without_partner_does_nothing() {
    let seen = Rc::new(RefCell::new(Vec::new()));
    let mut pipl: Pipl<String> = Pipl::new();
    let mut builder = PiplBuilder::new();
    let x = pipl.new_name("x".to_string());
    builder.read(&x).call(Box::new(Mark { word: "read", seen: seen.clone() }));
    builder.apply(&mut pipl);
    pipl.step();
    pipl.step();
    assert!(seen.borrow().is_empty());
}

#[test]
fn choice_withdraws_other_branches() {
    let seen = Rc::new(RefCell::new(Vec::new()));
    let mut pipl: Pipl<String> = Pipl::new();
    let mut builder = PiplBuilder::new();
    let go = pipl.new_name("go".to_string());
    let a = pipl.new_name("a".to_string());
    let b = pipl.new_name("b".to_string());
    {
        let choice = builder.send(&go).choice();
        choice.read(&a).call(Box::new(Mark { word: "a", seen: seen.clone() }));
        choice.read(&b).call(Box::new(Mark { word: "b", seen: seen.clone() }));
    }
    builder.read(&go);
    builder.send(&a);
    builder.send(&b);
    builder.apply(&mut pipl);
    pipl.step();
    pipl.step();
    pipl.step();
    pipl.step();
    assert_eq!(*seen.borrow(), vec!["a".to_string()]);
}

#[test]
fn parallel_runs_every_branch() {
    let seen = Rc::new(RefCell::new(Vec::new()));
    let mut pipl: Pipl<String> = Pipl::new();
    let mut builder = PiplBuilder::new();
    let go = pipl.new_name("go".to_string());
    let a = pipl.new_name("a".to_string());
    let b = pipl.new_name("b".to_string());
    {
        let par = builder.send(&go).parallel();
        par.read(&a).call(Box::new(Mark { word: "a", seen: seen.clone() }));
        par.read(&b).call(Box::new(Mark { word: "b", seen: seen.clone() }));
    }
    builder.read(&go);
    builder.send(&a);
    builder.send(&b);
    builder.apply(&mut pipl);
    for _ in 0..4 {
        pipl.step();
    }
    assert_eq!(*seen.borrow(), vec!["a".to_string(), "b".to_string()]);
}

#[test]
fn restricted_name_is_fresh() {
    let seen = Rc::new(RefCell::new(Vec::new()));
    let mut pipl: Pipl<String> = Pipl::new();
    let mut builder = PiplBuilder::new();
    let go = pipl.new_name("go".to_string());
    let r = pipl.new_name("r".to_string());
    builder
        .send(&go)
        .restrict(&[&r])
        .call(Box::new(Record { name: r, seen: seen.clone() }));
    builder.read(&go);
    builder.apply(&mut pipl);
    pipl.step();
    // the restricted name lives in a new slot that holds no value
    assert_eq!(*seen.borrow(), vec!["?".to_string()]);
}

#[test]
fn names_carry_values() {
    let mut pipl: Pipl<u32> = Pipl::new();
    let a = pipl.new_name(7);
    let b = pipl.new_name(9);
    assert_eq!(a, Name::new(0, 0));
    assert_eq!(b, Name::new(1, 1));
    assert_eq!(pipl.get_value(&a), Some(&7));
    assert_eq!(pipl.get_value(&b), Some(&9));
    let c = pipl.dup_name(&a);
    assert_eq!(c, Name::new(0, 2));
    assert_ne!(c, a);
    assert_eq!(pipl.get_value(&c), Some(&7));
    assert_eq!(pipl.get_value(&Name::new(5, 0)), None);
}

/// Binds `key` to `value` in the process that runs it.
struct SetName {
    key: Name,
    value: Name,
}

impl Call<String> for SetName {
    fn call(&self, frame: &mut CallFrame<String>) {
        frame.set_name(self.key, self.value);
    }
}

#[test]
fn call_binding_reaches_continuation() {
    let seen = Rc::new(RefCell::new(Vec::new()));
    let mut pipl: Pipl<String> = Pipl::new();
    let mut builder = PiplBuilder::new();
    let go = pipl.new_name("go".to_string());
    let chan = pipl.new_name("chan".to_string());
    let out = pipl.new_name("out".to_string());
    let hello = pipl.new_name("hello".to_string());
    let x = pipl.new_name("x".to_string());
    builder
        .read(&go)
        .call(Box::new(SetName { key: out, value: hello }))
        .send(&chan)
        .names(&[&out]);
    builder.send(&go);
    builder.read(&chan).names(&[&x]).call(Box::new(Record { name: x, seen: seen.clone() }));
    builder.apply(&mut pipl);
    pipl.step();
    pipl.step();
    assert_eq!(*seen.borrow(), vec!["hello".to_string()]);
}
