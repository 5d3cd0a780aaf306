# stacklist

Values kept in a chain of nodes that live in the frames of a recursion, so
that a callback can build up a list without any allocation.

- `src/` is the verified library:
  - `lib.rs`: the callback's answers (`Op`), the step of a resumable
    computation (`resumed_op`) and the token that stands for a list
    (`StackListToken`, `StackListTokenBorrowed`).
  - `node_ref.rs`, `node_mut.rs`: nodes linked by shared and by exclusive
    references, each with a view of the values of its chain.
  - `list.rs`: lists over such chains and their iterators, topmost value first.
  - `callback.rs`: what each frame of the recursion decides, and the proof that
    these decisions keep the list exactly as a vector used as a stack would,
    one answer at a time and over a whole run.
- `app/` holds the recursion itself (`new_list`, `list_from_generator`), whose
  length is up to the callback, and a small program.
- `tests/` runs the library. `tests/callback.rs` holds its own copy of the
  recursion in `app/`, built from the same verified decisions, and compares the
  lists it shows with a vector used as a stack.
