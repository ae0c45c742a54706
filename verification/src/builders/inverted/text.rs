//! How processes built back to front print: a read or a send with nothing
//! after it prints as `Read(Atom(n))` or `Send(Atom(n))`, one with a suffix
//! as `Read(Atom(n), <suffix>)`; a suffix or a prefix prints as what it
//! holds; the end of a plain sequence prints as `Terminal`; a choice and a
//! parallel print their branches, and the builder its processes, in
//! brackets.
use vstd::prelude::*;
use vstd::string::StringExecFns;
use crate::atom::Atom;
use super::Builder;
use super::choice::Choice;
use super::parallel::Parallel;
use super::sequence::{Prefix, Read, Send, Suffix};
use super::terminal::Terminal;

verus! {

/// The character of decimal digit `d`.
pub open spec fn digit_char(d: nat) -> char {
    if d == 0 { '0' }
    else if d == 1 { '1' }
    else if d == 2 { '2' }
    else if d == 3 { '3' }
    else if d == 4 { '4' }
    else if d == 5 { '5' }
    else if d == 6 { '6' }
    else if d == 7 { '7' }
    else if d == 8 { '8' }
    else { '9' }
}

/// `n` in decimal.
pub open spec fn decimal(n: nat) -> Seq<char>
    decreases n,
{
    if n < 10 {
        seq![digit_char(n)]
    } else {
        decimal(n / 10) + seq![digit_char(n % 10)]
    }
}

/// How an atom prints.
pub open spec fn atom_text(a: Atom) -> Seq<char> {
    "Atom("@ + decimal(a.id() as nat) + ")"@
}

/// How a prefix prints.
pub open spec fn prefix_text(p: Prefix) -> Seq<char>
    decreases p,
{
    match p {
        Prefix::Read(r) => read_text(r),
        Prefix::Send(s) => send_text(s),
    }
}

/// How a read prints.
pub open spec fn read_text(r: Read) -> Seq<char>
    decreases r,
{
    match r.1 {
        Suffix::Terminal(Terminal::Sequence) => "Read("@ + atom_text(r.0) + ")"@,
        _ => "Read("@ + atom_text(r.0) + ", "@ + suffix_text(r.1) + ")"@,
    }
}

/// How a send prints.
pub open spec fn send_text(s: Send) -> Seq<char>
    decreases s,
{
    match s.1 {
        Suffix::Terminal(Terminal::Sequence) => "Send("@ + atom_text(s.0) + ")"@,
        _ => "Send("@ + atom_text(s.0) + ", "@ + suffix_text(s.1) + ")"@,
    }
}

/// How a suffix prints.
pub open spec fn suffix_text(s: Suffix) -> Seq<char>
    decreases s,
{
    match s {
        Suffix::Read(r) => read_text(*r),
        Suffix::Send(x) => send_text(*x),
        Suffix::Terminal(t) => terminal_text(t),
    }
}

/// How the end of a sequence prints.
pub open spec fn terminal_text(t: Terminal) -> Seq<char>
    decreases t,
{
    match t {
        Terminal::Choice(c) => "Choice { processes: ["@ + list_text(c.processes@) + "] }"@,
        Terminal::Parallel(p) => "Parallel { processes: ["@ + list_text(p.processes@) + "] }"@,
        Terminal::Sequence => "Terminal"@,
    }
}

/// How a list of prefixes prints: each one, with `, ` between.
pub open spec fn list_text(ps: Seq<Prefix>) -> Seq<char>
    decreases ps,
{
    if ps.len() == 0 {
        Seq::empty()
    } else if ps.len() == 1 {
        prefix_text(ps[0])
    } else {
        list_text(ps.subrange(0, ps.len() - 1)) + ", "@ + prefix_text(ps[ps.len() - 1])
    }
}

/// The printed list grows by one prefix at a time.
proof fn lemma_list_step(ps: Seq<Prefix>, i: int)
    requires
        0 <= i < ps.len(),
    ensures
        list_text(ps.subrange(0, i + 1)) == if i == 0 {
            prefix_text(ps[0])
        } else {
            list_text(ps.subrange(0, i)) + ", "@ + prefix_text(ps[i])
        },
{
    let t = ps.subrange(0, i + 1);
    assert(t.subrange(0, t.len() - 1) =~= ps.subrange(0, i));
    assert(t[t.len() - 1] == ps[i]);
    assert(t[0] == ps[0]);
}

/// The text of decimal digit `d`.
fn digit_str(d: usize) -> (r: &'static str)
    requires
        d < 10,
    ensures
        r@ == seq![digit_char(d as nat)],
{
    if d == 0 {
        proof { reveal_strlit("0"); }
        "0"
    } else if d == 1 {
        proof { reveal_strlit("1"); }
        "1"
    } else if d == 2 {
        proof { reveal_strlit("2"); }
        "2"
    } else if d == 3 {
        proof { reveal_strlit("3"); }
        "3"
    } else if d == 4 {
        proof { reveal_strlit("4"); }
        "4"
    } else if d == 5 {
        proof { reveal_strlit("5"); }
        "5"
    } else if d == 6 {
        proof { reveal_strlit("6"); }
        "6"
    } else if d == 7 {
        proof { reveal_strlit("7"); }
        "7"
    } else if d == 8 {
        proof { reveal_strlit("8"); }
        "8"
    } else {
        proof { reveal_strlit("9"); }
        "9"
    }
}

/// Appends `n` in decimal.
fn push_decimal(s: &mut String, n: usize)
    ensures
        final(s)@ == old(s)@ + decimal(n as nat),
    decreases n,
{
    if n >= 10 {
        push_decimal(s, n / 10);
    }
    s.append(digit_str(n % 10));
    proof {
        if n >= 10 {
            assert(final(s)@ =~= old(s)@ + decimal(n as nat)) by {
                assert(decimal(n as nat) == decimal((n / 10) as nat) + seq![digit_char((n % 10) as nat)]);
            }
        } else {
            assert(final(s)@ =~= old(s)@ + decimal(n as nat));
        }
    }
}

/// Appends how `a` prints.
fn push_atom(s: &mut String, a: &Atom)
    ensures
        final(s)@ == old(s)@ + atom_text(*a),
{
    s.append("Atom(");
    push_decimal(s, a.number());
    s.append(")");
    assert(final(s)@ =~= old(s)@ + atom_text(*a));
}

impl Prefix {
    pub(crate) fn push_text(&self, s: &mut String)
        ensures
            final(s)@ == old(s)@ + prefix_text(*self),
        decreases *self,
    {
        match self {
            Prefix::Read(r) => r.push_text(s),
            Prefix::Send(x) => x.push_text(s),
        }
    }

    /// How this prefix prints.
    pub fn debug_text(&self) -> (t: String)
        ensures
            t@ == prefix_text(*self),
    {
        let mut t = String::new();
        self.push_text(&mut t);
        assert(t@ =~= prefix_text(*self));
        t
    }
}

impl Read {
    pub(crate) fn push_text(&self, s: &mut String)
        ensures
            final(s)@ == old(s)@ + read_text(*self),
        decreases *self,
    {
        s.append("Read(");
        push_atom(s, &self.0);
        match &self.1 {
            Suffix::Terminal(Terminal::Sequence) => {},
            suffix => {
                s.append(", ");
                suffix.push_text(s);
            },
        }
        s.append(")");
        assert(final(s)@ =~= old(s)@ + read_text(*self));
    }

    /// How this read prints.
    pub fn debug_text(&self) -> (t: String)
        ensures
            t@ == read_text(*self),
    {
        let mut t = String::new();
        self.push_text(&mut t);
        assert(t@ =~= read_text(*self));
        t
    }
}

impl Send {
    pub(crate) fn push_text(&self, s: &mut String)
        ensures
            final(s)@ == old(s)@ + send_text(*self),
        decreases *self,
    {
        s.append("Send(");
        push_atom(s, &self.0);
        match &self.1 {
            Suffix::Terminal(Terminal::Sequence) => {},
            suffix => {
                s.append(", ");
                suffix.push_text(s);
            },
        }
        s.append(")");
        assert(final(s)@ =~= old(s)@ + send_text(*self));
    }

    /// How this send prints.
    pub fn debug_text(&self) -> (t: String)
        ensures
            t@ == send_text(*self),
    {
        let mut t = String::new();
        self.push_text(&mut t);
        assert(t@ =~= send_text(*self));
        t
    }
}

impl Suffix {
    pub(crate) fn push_text(&self, s: &mut String)
        ensures
            final(s)@ == old(s)@ + suffix_text(*self),
        decreases *self,
    {
        match self {
            Suffix::Read(r) => r.push_text(s),
            Suffix::Send(x) => x.push_text(s),
            Suffix::Terminal(t) => t.push_text(s),
        }
    }

    /// How this suffix prints.
    pub fn debug_text(&self) -> (t: String)
        ensures
            t@ == suffix_text(*self),
    {
        let mut t = String::new();
        self.push_text(&mut t);
        assert(t@ =~= suffix_text(*self));
        t
    }
}

impl Terminal {
    pub(crate) fn push_text(&self, s: &mut String)
        ensures
            final(s)@ == old(s)@ + terminal_text(*self),
        decreases *self,
    {
        match self {
            Terminal::Choice(c) => {
                s.append("Choice { processes: [");
                push_list(&c.processes, s);
                s.append("] }");
            },
            Terminal::Parallel(p) => {
                s.append("Parallel { processes: [");
                push_list(&p.processes, s);
                s.append("] }");
            },
            Terminal::Sequence => {
                s.append("Terminal");
            },
        }
        assert(final(s)@ =~= old(s)@ + terminal_text(*self));
    }

    /// How this end prints.
    pub fn debug_text(&self) -> (t: String)
        ensures
            t@ == terminal_text(*self),
    {
        let mut t = String::new();
        self.push_text(&mut t);
        assert(t@ =~= terminal_text(*self));
        t
    }
}

/// Appends how the prefixes print, with `, ` between.
fn push_list(ps: &Vec<Prefix>, s: &mut String)
    ensures
        final(s)@ == old(s)@ + list_text(ps@),
    decreases ps@,
{
    let mut i: usize = 0;
    assert(ps@.subrange(0, 0) =~= Seq::<Prefix>::empty());
    while i < ps.len()
        invariant
            i <= ps@.len(),
            s@ == old(s)@ + list_text(ps@.subrange(0, i as int)),
        decreases ps@.len() - i,
    {
        proof {
            lemma_list_step(ps@, i as int);
        }
        if i > 0 {
            s.append(", ");
        }
        ps[i].push_text(s);
        i = i + 1;
        assert(s@ =~= old(s)@ + list_text(ps@.subrange(0, i as int)));
    }
    assert(ps@.subrange(0, ps@.len() as int) =~= ps@);
}

impl Choice {
    /// How this choice prints.
    pub fn debug_text(&self) -> (t: String)
        ensures
            t@ == "Choice { processes: ["@ + list_text(self.processes@) + "] }"@,
    {
        let mut t = String::new();
        t.append("Choice { processes: [");
        push_list(&self.processes, &mut t);
        t.append("] }");
        assert(t@ =~= "Choice { processes: ["@ + list_text(self.processes@) + "] }"@);
        t
    }
}

impl Parallel {
    /// How this parallel prints.
    pub fn debug_text(&self) -> (t: String)
        ensures
            t@ == "Parallel { processes: ["@ + list_text(self.processes@) + "] }"@,
    {
        let mut t = String::new();
        t.append("Parallel { processes: [");
        push_list(&self.processes, &mut t);
        t.append("] }");
        assert(t@ =~= "Parallel { processes: ["@ + list_text(self.processes@) + "] }"@);
        t
    }
}

impl Builder {
    /// How this builder prints.
    pub fn debug_text(&self) -> (t: String)
        ensures
            t@ == "Builder { processes: ["@ + list_text(self.processes@) + "] }"@,
    {
        let mut t = String::new();
        t.append("Builder { processes: [");
        push_list(&self.processes, &mut t);
        t.append("] }");
        assert(t@ =~= "Builder { processes: ["@ + list_text(self.processes@) + "] }"@);
        t
    }
}

} // verus!
