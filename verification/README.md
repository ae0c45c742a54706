# pipl

A small engine for a process calculus in the style of the pi-calculus,
written in Verus.

- `src/` is the verified library. `atom` and `atom_pipl` pair positive and
  negative reactions that wait on the same atom, oldest first. `name`,
  `bindings`, `refs`, `channel`, `prefix`, `context`, `processor` and
  `engine` run processes made of prefixes that read or send lists of names;
  `builder` and `builders` write such processes; `reaction`, `mods`,
  `reactions` and `process` describe waiting processes by their references
  and as trees. `handoff` is the smallest engine: one reader, one sender.
- `tests/` runs the library on concrete scenarios.
- `app/` keeps callbacks as closures on top of `atom_pipl::Pipl`.

Maps keyed by names (`name_map::NameMap`, the queues of
`context::index::ContextIndex`) are sorted vectors with a ghost `Map` view
rather than `std::collections::BTreeMap`.  vstd specifies `BTreeMap` only for
keys whose `Ord` is known to obey its ordering spec (`obeys_cmp`); the
derived `Ord` of `Name` is not one of them, though a `(usize, usize)` tuple
key is, and `insert` and `get` verify on such a map.  What the library needs
beyond that is order: the pairs of a map in key order (`clone_refs`,
`keys`) and the least name that is ready in the index.  vstd gives those for
`BTreeMap` only through its iterators, while on a sorted vector they are
proved directly, so the vectors stay.
