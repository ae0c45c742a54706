//! A small process-calculus engine in the style of the pi-calculus.
//!
//! Two layers live here.  The atom layer (`Atom`, `AtomCreator`, `Pipl`)
//! pairs positive and negative callbacks that wait on the same atom.  The
//! name layer (`engine`, `builder`, `context`, ...) runs processes built from
//! prefixes that read or send lists of names on a channel name; `reaction`,
//! `mods`, `reactions` and `process` describe waiting processes by their
//! references and as trees.
mod seq_count;
mod name_map;

pub mod atom;
pub mod atom_pipl;
pub mod name;
pub mod bindings;
pub mod refs;
pub mod channel;
pub mod call;
pub mod prefix;
pub mod context;
pub mod processor;
pub mod engine;
pub mod builder;
pub mod builders;
pub mod handoff;
pub mod reaction;
pub mod mods;
pub mod process;
pub mod reactions;

pub use atom::Atom;
pub use atom::AtomCreator;
pub use atom_pipl::connect;
pub use atom_pipl::Pipl;


pub use name::Name;
pub use name::NameStore;
