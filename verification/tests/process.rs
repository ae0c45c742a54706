use std::rc::Rc;

use pipl::process::{Process, Sequence};
use pipl::prefix::{Action, Prefix, PrefixDirection};
use pipl::Name;

fn n(k: usize) -> Name {
    Name::new(k, 0)
}

#[test]
fn terminal_is_terminal() {
    let p: Process<()> = Process::Terminal;
    assert!(!p.is_nonterminal());
    let q = Process::new_names(vec![n(1)], Process::new_names(vec![n(2)], p));
    assert!(!q.is_nonterminal());
}

#[test]
fn sequence_is_nonterminal() {
    let prefix: Prefix<()> = Prefix::new(n(0), PrefixDirection::Read, vec![Action::Repeat, Action::Communicate(vec![n(3), n(4)])]);
    let s = Sequence::new(vec![n(9)], prefix, Process::Terminal);
    assert!(s.is_repeating());
    assert_eq!(s.names(), vec![n(3), n(4)]);
    assert_eq!(*s.new_names(), vec![n(9)]);
    assert_eq!(s.channel(), pipl::channel::Channel::read(n(0)));
    assert!(!s.suffix().is_nonterminal());
    let p = Process::new_names(vec![n(1)], Process::new_parallel(vec![Rc::new(s)]));
    assert!(p.is_nonterminal());
}

#[test]
fn plain_prefix_is_not_repeating() {
    let prefix: Prefix<()> = Prefix::new(n(0), PrefixDirection::Send, vec![]);
    let s = Sequence::new(vec![], prefix, Process::Terminal);
    assert!(!s.is_repeating());
    assert_eq!(s.names(), Vec::<Name>::new());
    let c = Process::new_choice(vec![Rc::new(s)]);
    assert!(c.is_nonterminal());
    match c {
        Process::Choice(x) => assert_eq!(x.options().len(), 1),
        _ => panic!("not a choice"),
    }
}
