use pipl::builders::inverted::{Builder, Prefix, Suffix, Terminal};
use pipl::AtomCreator;

#[test]
fn sequence_is_built_back_to_front() {
    let mut atoms = AtomCreator::new();
    let (x, y) = (atoms.create(), atoms.create());
    let mut pipl = Builder::new();
    Builder::sequence().read(y).send(x).launch(&mut pipl);
    assert_eq!(pipl.processes.len(), 1);
    match &pipl.processes[0] {
        Prefix::Send(s) => {
            assert_eq!(s.0, x);
            match &s.1 {
                Suffix::Read(r) => {
                    assert_eq!(r.0, y);
                    assert!(matches!(r.1, Suffix::Terminal(Terminal::Sequence)));
                },
                _ => panic!("expected a read"),
            }
        },
        _ => panic!("expected a send"),
    }
}

#[test]
fn choice_and_parallel_collect_branches() {
    let mut atoms = AtomCreator::new();
    let (x, y) = (atoms.create(), atoms.create());
    let mut choice = Builder::choice();
    Builder::sequence().read(x).choice(&mut choice);
    Builder::sequence().send(y).choice(&mut choice);
    assert_eq!(choice.processes.len(), 2);
    let mut par = Builder::parallel();
    Builder::sequence().read(x).parallel(&mut par);
    assert_eq!(par.processes.len(), 1);
    let mut pipl = Builder::new();
    choice.prefix().send(x).launch(&mut pipl);
    par.prefix().read(y).launch(&mut pipl);
    assert_eq!(pipl.processes.len(), 2);
}

#[test]
fn processes_print_as_written() {
    let mut atoms = AtomCreator::new();
    let (x, y) = (atoms.create(), atoms.create());
    let s = Builder::sequence().read(y).send(x);
    assert_eq!(s.debug_text(), "Send(Atom(0), Read(Atom(1)))");
    assert_eq!(Builder::sequence().debug_text(), "Terminal");
    let mut choice = Builder::choice();
    Builder::sequence().read(x).choice(&mut choice);
    Builder::sequence().send(y).choice(&mut choice);
    assert_eq!(choice.debug_text(), "Choice { processes: [Read(Atom(0)), Send(Atom(1))] }");
    let r = choice.prefix().read(x);
    assert_eq!(r.debug_text(), "Read(Atom(0), Choice { processes: [Read(Atom(0)), Send(Atom(1))] })");
    let mut pipl = Builder::new();
    assert_eq!(pipl.debug_text(), "Builder { processes: [] }");
    r.launch(&mut pipl);
    assert_eq!(pipl.processes[0].debug_text(), "Read(Atom(0), Choice { processes: [Read(Atom(0)), Send(Atom(1))] })");
    let mut many = AtomCreator::new();
    for _ in 0..123 {
        many.create();
    }
    let big = many.create();
    assert_eq!(Builder::sequence().send(big).debug_text(), "Send(Atom(123))");
}
