# mluau_types

The types through which Rust code and a Luau VM hand values, results and
references to each other, with contracts that Verus proves.

- `src/erased.rs`: type-erased values behind a header
- `src/heap.rs`: the memory they live in; addresses and sizes describe its layout, and
  each value is kept in a box beside its block
- `src/payload.rs`, `src/type_key.rs`: taking the type off a value and putting it back
- `src/layout.rs`: sizes and alignments
- `src/ownership.rs`: giving a value up
- `src/typed_ref.rs`: references to values of a known type that the VM keeps alive
- `src/callback.rs`: what a callback hands back, and how it ends
- `src/userdata.rs`: light userdata, direct fields, type tags
- `src/state.rs`: what the references hold of the VM
- `tests/`: tests of the compiled library
- `app/`: the calls into Luau and the trait impls that face them
