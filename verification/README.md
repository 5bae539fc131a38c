# ossa_cookbook

A collaborative cookbook built on the Ossa replication protocol.

- `src/` is the verified library (Verus):
  - `time.rs`: logical times of operations and their total order;
  - `state/`: the replicated state — last-writer-wins registers (`lww.rs`),
    recipes (`recipe.rs`), the two-phase map of recipes (`recipes.rs`) and
    the cookbook (`cookbook.rs`), with the convergence laws
    (`recipes_law.rs` and the `lemma_*` proof functions);
  - `gui/`: validation of the forms, the operations they produce, and the
    navigation between screens;
  - `menu.rs`: the application menu; `demo.rs`: the starting cookbook.
- `tests/` exercises the library on concrete values.
- `app/` is the desktop application (Dioxus): rendering, the Ossa store, the
  menu bar and the command line.

The recipe map in `src/state/recipes.rs` stands in for ossa-crdt's `TwoPMap`
rather than wrapping it. `TwoPMap` can hold only values that implement
ossa-crdt's `CRDT` trait. Its `apply` reaches the recipes through that trait
and through a `CausalState`, both outside traits. Verified code cannot be
bounded by an outside trait. The library also cannot implement the trait for
its own `Recipe` (outside impls live in `app/`, and the orphan rule keeps
`app/` from implementing it for a library type). So the library keeps the
same two-phase semantics itself: insert once, edit in place, and a deleted
id stays deleted, with recipes kept in id order as `TwoPMap`'s ordered map
iterates them. The causal comparison stays with ossa and reaches the library
as the `current_precedes` argument of `apply`.
