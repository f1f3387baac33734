# mokapot

A library for JVM bytecode and the Moka IR, an intermediate representation in static single
assignment form that is generated from bytecode. Its behaviour is stated in `requires` /
`ensures` contracts and proved with Verus.

## Layout

- `src/jvm/` — the JVM side.
  - `code/` — instructions (`Instruction`, `RawInstruction`), program counters, method bodies,
    exception tables and local variable tables.
  - `bytecode/` — reading and writing the class file format: raw instructions and instruction
    lists (`code.rs`), the elements of attributes (`raw_attributes.rs` and
    `raw_attributes/annotations.rs`), the lifting of type annotation targets
    (`annotation.rs`), and the errors of parsing and writing.
  - `class.rs`, `class/constant_pool.rs` — class file versions, access flags, method handles
    and the constant pool.
  - `class_loader.rs` — the decisions of a class loader that searches class paths in order,
    and the cache of a class loader that keeps what it loaded.
  - `text.rs` — the text of constants, types, field and method references and descriptors.
- `src/ir/` — the Moka IR.
  - `moka_instruction.rs`, `expression/` — the instructions and expressions of the IR.
  - `generator/` — the JVM stack frame (`jvm_frame.rs`), the execution of one instruction on a
    frame (`execution.rs`), and the control flow out of an instruction (`analysis.rs`).
  - `control_flow/` — control flow graphs and path conditions in disjunctive normal form.
  - `data_flow.rs` — where values are defined and used.
  - `text.rs` — the text of the IR.
- `app/` — what Verus does not check: loading class files from directories and jar files,
  the lock around the class cache, and error types that print themselves.
- `tests/` — tests of the library.

Floating-point constants are held by the bits of their IEEE 754 representation.
