# salt_front

The verified core of the Salt compiler front end, written in Verus.

- `types`, `equality`, `debug_text`, `resolution`, `layout`: the type
  representation and its model, structural equality, the `Debug` text of a
  type, type keys, pointer-name flattening, sizes and layout compatibility.
- `numeric`: the MLIR operation and comparison predicate of each binary
  operator per operand type, and the integer and float promotion table.
- `type_map`, `inference`, `substitution`: bindings of generic parameters,
  bidirectional inference (unification, substitution, phantom parameters)
  and substitution through the active type map.
- `smt`, `z3_shim`: the meaning of solver terms and a facade over the Z3
  solver whose terms record what they stand for; a check's answer is stated
  over the recorded formulas.
- `slice_verifier`, `exhaustiveness`, `symbolic`: bounds proofs for buffer
  slices, match exhaustiveness by name and by discriminant, and field
  functions for contract verification.
- `contracts`: compile-time checks of preconditions at calls and of
  postconditions at returns, over integer contract expressions.
- `specialization`: keys of specialised templates and the queue of
  expansions still to do.
- `driver`: the toolchain steps (`mlir-opt`, `mlir-translate`, `llc`, a
  linker) for each target.
- `interpreter`: runtime values of the tree-walking interpreter.

`app/main.rs` is a command-line driver that writes an MLIR file into the
build directory and runs the steps the library builds.
