use pipl::channel::Channel;
use pipl::mods::Mods;
use pipl::prefix::{Action, Prefix, PrefixDirection};
use pipl::reaction::{ChoiceReaction, Reaction, SequenceReaction};
use pipl::refs::Refs;
use pipl::{Name, NameStore};

fn n(k: usize) -> Name {
    Name::new(k, 0)
}

#[test]
fn sequence_sends_what_its_names_refer_to() {
    let mut refs = Refs::new();
    refs.set(n(1), n(21));
    let p: Prefix<()> = Prefix::new(n(0), PrefixDirection::Send, vec![Action::Communicate(vec![n(1), n(2)])]);
    let s = SequenceReaction::new(refs, p);
    let mut mods: Mods<()> = Mods::new(NameStore::new());
    assert_eq!(s.send(&mut mods), vec![n(21), n(2)]);
}

#[test]
fn sequence_without_names_sends_nothing() {
    let p: Prefix<()> = Prefix::new(n(0), PrefixDirection::Send, vec![]);
    let s = SequenceReaction::new(Refs::new(), p);
    let mut mods: Mods<()> = Mods::new(NameStore::new());
    assert_eq!(s.send(&mut mods), Vec::<Name>::new());
}

#[test]
fn sequence_restriction_draws_new_instances() {
    let mut store: NameStore<()> = NameStore::new();
    let a = store.new_name();
    let p: Prefix<()> = Prefix::new(n(9), PrefixDirection::Read, vec![Action::Restrict(vec![a, a])]);
    let s = SequenceReaction::new(Refs::new(), p);
    let mut mods = Mods::new(store);
    s.read(&mut mods, vec![]);
    let mut store = mods.into_names();
    // two instances were drawn by the restriction
    assert_eq!(store.new_name(), Name::new(1, 3));
}

#[test]
fn mods_new_names_and_values() {
    let mut mods: Mods<&str> = Mods::new(NameStore::new());
    let x = mods.new_name("x");
    assert_eq!(mods.get_value(&x), Some(&"x"));
    let mut refs = Refs::new();
    mods.new_names(&mut refs, &[x]);
    let y = refs.get(&x);
    assert_eq!(y, Name::new(0, 1));
    assert_eq!(mods.get_value(&y), Some(&"x"));
}

#[test]
fn choice_collapses_to_matching_sequence() {
    let mut refs = Refs::new();
    refs.set(n(1), n(11));
    let a: Prefix<()> = Prefix::new(n(1), PrefixDirection::Read, vec![]);
    let b: Prefix<()> = Prefix::new(n(2), PrefixDirection::Read, vec![]);
    let c = ChoiceReaction::new(refs, vec![a, b]);
    assert_eq!(c.channels(), vec![Channel::read(n(1)), Channel::read(n(2))]);
    let s = c.collapse(&Channel::read(n(11)));
    assert_eq!(s.channels(), vec![Channel::read(n(1))]);
    assert_eq!(s.refs().get(&n(1)), n(11));
}

#[test]
fn reaction_reports_channels_and_refs() {
    let p: Prefix<()> = Prefix::new(n(4), PrefixDirection::Send, vec![]);
    let r = Reaction::new_sequence(Refs::new(), p);
    assert_eq!(r.channels(), vec![Channel::send(n(4))]);
    assert_eq!(r.refs().get(&n(4)), n(4));
    let q: Prefix<()> = Prefix::new(n(5), PrefixDirection::Read, vec![]);
    let c = Reaction::new_choice(Refs::new(), vec![q]);
    assert_eq!(c.channels(), vec![Channel::read(n(5))]);
}

struct Collect(std::rc::Rc<std::cell::RefCell<Vec<Name>>>);

impl pipl::reactions::OnRead<()> for Collect {
    fn read(&self, _mods: &mut Mods<()>, refs: Refs, names: Vec<Name>) {
        let mut got = self.0.borrow_mut();
        for n in names {
            got.push(refs.get(&n));
        }
    }
}

struct Give(Name);

impl pipl::reactions::OnSend<()> for Give {
    fn send(&self, _mods: &mut Mods<()>, refs: Refs) -> Vec<Name> {
        vec![refs.get(&self.0)]
    }
}

#[test]
fn reactions_hand_over_to_their_code() {
    let got = std::rc::Rc::new(std::cell::RefCell::new(Vec::new()));
    let mut refs = Refs::new();
    refs.set(n(1), n(11));
    let r = pipl::reactions::ReadReaction::new(Box::new(Collect(got.clone())), refs.clone());
    let mut mods: Mods<()> = Mods::new(NameStore::new());
    r.read(&mut mods, vec![n(1), n(2)]);
    assert_eq!(*got.borrow(), vec![n(11), n(2)]);
    let s = pipl::reactions::SendReaction::new(Box::new(Give(n(1))), refs);
    assert_eq!(s.send(&mut mods), vec![n(11)]);
}
