# linear_memory

Linear memory of a WebAssembly runtime, verified with Verus.

- `src/` is the library. `memory.rs` holds `MemoryInstance`; what its operations do is stated over
  `MemoryState` (`state.rs`), and `laws.rs` relates the operations to each other.
- `tests/` runs the library on concrete values.
- `app/` shares memories by reference counting and creates them in raw memory.
