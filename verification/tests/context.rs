use pipl::bindings::Bindings;
use pipl::context::index::ContextIndex;
use pipl::context::store::ContextStore;
use pipl::context::ContextId;
use pipl::prefix::{Action, Prefix, PrefixDirection};
use pipl::Name;

fn n(k: usize) -> Name {
    Name::new(k, 0)
}

fn bare(name: Name, direction: PrefixDirection) -> Prefix<()> {
    Prefix::new(name, direction, Vec::new())
}

#[test]
fn index_offers_oldest_pair_on_least_ready_name() {
    let mut index = ContextIndex::new();
    index.add(n(5), PrefixDirection::Read, ContextId(0));
    index.add(n(2), PrefixDirection::Send, ContextId(1));
    index.add(n(5), PrefixDirection::Send, ContextId(2));
    index.add(n(2), PrefixDirection::Read, ContextId(3));
    index.add(n(2), PrefixDirection::Read, ContextId(4));
    assert_eq!(index.next(), Some((n(2), ContextId(3), ContextId(1))));
    assert_eq!(index.next(), Some((n(5), ContextId(0), ContextId(2))));
    assert_eq!(index.next(), None);
}

#[test]
fn index_remove_takes_one_entry() {
    let mut index = ContextIndex::new();
    index.add(n(1), PrefixDirection::Read, ContextId(0));
    index.add(n(1), PrefixDirection::Read, ContextId(7));
    index.add(n(1), PrefixDirection::Send, ContextId(1));
    index.remove(&n(1), PrefixDirection::Read, &ContextId(0));
    assert_eq!(index.next(), Some((n(1), ContextId(7), ContextId(1))));
}

#[test]
fn store_pairs_reader_and_sender() {
    let mut store: ContextStore<()> = ContextStore::new();
    store.add_prefix(Bindings::new(), bare(n(1), PrefixDirection::Read));
    assert!(store.next().is_none());
    let mut b = Bindings::new();
    b.set_name(n(9), n(1));
    store.add_prefix(b, bare(n(9), PrefixDirection::Send));
    let (reader, sender) = store.next().unwrap();
    assert_eq!(*reader.prefix.name(), n(1));
    assert_eq!(*sender.prefix.name(), n(9));
    assert_eq!(sender.bindings.get_name(&n(9)), n(1));
    assert!(store.next().is_none());
}

#[test]
fn store_choice_reacts_once() {
    let mut store: ContextStore<()> = ContextStore::new();
    store.add_choice(
        Bindings::new(),
        vec![bare(n(1), PrefixDirection::Read), bare(n(2), PrefixDirection::Read)],
    );
    store.add_prefix(Bindings::new(), bare(n(1), PrefixDirection::Send));
    store.add_prefix(Bindings::new(), bare(n(2), PrefixDirection::Send));
    let (reader, _sender) = store.next().unwrap();
    assert_eq!(*reader.prefix.name(), n(1));
    assert!(store.next().is_none());
}

#[test]
fn store_choice_with_itself_does_not_react() {
    let mut store: ContextStore<()> = ContextStore::new();
    store.add_choice(
        Bindings::new(),
        vec![bare(n(1), PrefixDirection::Read), bare(n(1), PrefixDirection::Send)],
    );
    assert!(store.next().is_none());
}

#[test]
fn prefix_keeps_its_parts() {
    let p: Prefix<()> = Prefix::new(n(3), PrefixDirection::Send, vec![Action::Repeat, Action::Communicate(vec![n(4)])]);
    assert_eq!(*p.name(), n(3));
    assert_eq!(p.direction(), PrefixDirection::Send);
    assert_eq!(p.actions().len(), 2);
    assert_eq!(p.channel(), pipl::channel::Channel::send(n(3)));
    let q = p.clone();
    assert_eq!(*q.name(), n(3));
}
