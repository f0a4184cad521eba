# rusty_python

A small Python runtime with machine-checked contracts: values and their
operations, a syntax tree, a register IR and its optimizer, a bytecode
generator, a stack virtual machine, a generational garbage collector, module
loading, JIT call counters, a foreign-function registry and the argument
handling of the command-line tools.

- `src/` is the verified library. Floating-point work never happens there:
  an operation on floats yields a `FloatTask` for the host to answer, and the
  machine resumes with the answer.
- `tests/` exercises the library.
- `app/` is the host side: parsing with `oak-python`, binary64 arithmetic,
  module files on disk, native function bodies, the tool programs and
  serializable copies of the bytecode types.
