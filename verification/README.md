# rib-core

The core data model of Rib, a small expression language for working with
WebAssembly components, written in Verus with its behaviour stated in
contracts and proved.

## Layout

- `src/wit_type`, `src/analysis`: WIT types and exported functions (names,
  owners, resource roles, handles), with builders and laws about renaming and
  about type equivalence.
- `src/type_checker`: the exhaustiveness check for `match` arms over options,
  results, variants and enums, including nested constructor patterns and dead
  arms after a catch-all; `laws.rs` states what every check guarantees.
- `src/value`, `src/value_and_type`: component-model values, typed values, and
  the conversion of Rust values into them.
- `src/wasm_wave_text`: the decisions behind Wasm Wave text: building typed
  values from their parts and reading them back, with round-trip laws.
- `src/compiler`, `src/type_inference`, `src/profile`: instruction
  identifiers, custom instance specifications, and the profiling switch.
- `app/`: what stays outside verification: serde copies of the types, the
  `wasm_wave` trait implementations, floats, and reading the environment.
- `tests/`: executable tests of the library.

## What is not here

The Rib parser, the expression tree and its arena, type inference, the type
checker passes other than exhaustiveness, the compiler's instruction set and
the component registry are not part of this crate: they are built on the
expression, inferred-type, call-type, source-span, type-name and
function-name types, which this crate does not define, so nothing about them
is stated or proved here.

Floating-point values are held as their bit patterns; `==` on values
compares them as floats (a NaN equals nothing, the two zeros are equal).
