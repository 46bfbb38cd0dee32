# cpp_to_rust

A verified library behind a C/C++ to Rust conversion tool. It analyses C and C++ sources
(declarations, macros, includes, memory, STL, virtual-function and `void *` patterns),
builds the prompts sent to a language model, reads code back out of its replies, and decides
each step of the compile-and-fix loop. Every function in `src/` carries a contract proved by
Verus; calls into `regex`, `toml` and parts of `std` stand behind small trusted wrappers whose
contracts are stated next to them.

- `src/`: the verified library, one module per concern (`analyzer`, `preprocessor`,
  `memory`, `stl_containers`, `virtual_fn`, `void_ptr`, `ownership`, `prompt`, `generator`,
  `compiler`, `comparator`, `sanitizer`, `fix_loop`, `config`, `json`, `utf`, and the helpers
  `text`, `patterns`, `paths`, `types`).
- `tests/`: tests run against the compiled library.
- `app/`: the command-line program: file and process I/O, HTTP calls to the model, and the
  async driver that runs the fix loop's actions.
