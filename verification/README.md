# krama_runtime

The runtime of the Krama scripting language: static scope analysis, a
tree-walking evaluator over the syntax tree, its scope stack and heap, and
scanners for number, string and identifier tokens. The library is written in
Verus; every function in `src/` carries a contract that Verus proves.

## Layout

- `src/ast.rs`, `src/object.rs`, `src/error.rs`, `src/span.rs`: the syntax
  tree, runtime values, errors and source spans.
- `src/analysis/`: the checker and the resolver, which compute for every
  identifier the number of scopes between its use and its binding, and the
  laws that they close every scope they open.
- `src/memory/`: the scope arena with its frame stack, and the heap of
  arrays, tuples, objects, struct definitions and resolved types.
- `src/environment.rs`: a simple nested environment of named values.
- `src/interpreter/`: evaluation of expressions and statements, calls,
  assignment targets, member access, indexing, operators, types, pattern
  matching, loops, modules and whole programs with their tests.
- `src/lexer.rs`: byte-level scanners for numbers, strings and identifiers.
- `src/maps.rs`: the `indexmap` and `ahash` maps the analysis and the
  interpreter keep, with the contracts of the calls made on them.
- `app/`: the host side: the working directory, reading module files and
  rendering error messages. A host that parses a module file hands its
  statements to `Interpreter::load_module`, which runs and caches it.
- `tests/`: tests of the library on concrete programs and values.

## Bounds

Evaluation takes a call depth (the number of nested user-function calls
still allowed, `MAX_CALL_DEPTH` for whole programs) and draws on the
interpreter's budget of `while` rounds (`steps`). Running out of either is
an error (`CallDepthExceeded`, `StepLimit`), so that every evaluation
terminates.
