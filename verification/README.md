# tsst

A toolchain for the TSST scripting language: lexer, parser, type checker,
interpreter and a code generator that turns a program into Rust source, with
the package-manifest helpers of the `tsst` command. The library's logic is verified
with Verus against a functional specification; the few calls into std that vstd does
not specify sit behind small trusted wrappers whose contracts are stated or named.

## Layout

- `src/text.rs`, `src/token.rs`: text helpers and tokens.
- `src/lexer.rs`: the lexer and its specification `spec_tokenize`;
  `lex_laws.rs` proves that a trailing line comment adds no token.
- `src/parse_spec.rs`: the grammar as spec functions; `parse_tokens.rs`,
  `parse_expr.rs`, `parse_stmt.rs`, `parser.rs`: the recursive-descent parser
  proved equal to it. `pipeline.rs` lexes and parses a source text.
- `src/check_spec.rs`, `src/typechecker.rs`: the typing rules and the checker;
  `check_laws.rs` proves properties of the rules (scoping, both branches
  checked, a single `main`, typed functions return on every path).
- `src/run_spec.rs`: the evaluation rules; `values.rs`, `value_views.rs`,
  `interpreter.rs`: the interpreter. Work only the host can do (reading
  input, files, processes, the environment) is returned to the caller as a
  request; the run is replayed once the answer is given. `run_laws.rs`
  proves read-after-write properties of variables and dictionaries;
  `replay_laws.rs` proves that a replay with more answers repeats the run;
  `value_laws.rs` proves that every dictionary a run builds or stores keeps
  unique keys in increasing order.
- `src/runtime.rs`, `src/compile_spec.rs`, `src/compiler.rs`: the runtime
  support text and the Rust code generator; `compile_laws.rs` proves
  properties of the generated text.
- `src/project.rs`: manifest parsing, dependency sources, import-path forms
  and generated manifests for `tsst` projects.
- `app/main.rs`: the `tsst` command line (files, processes, package
  installation), built on the library.
- `tests/`: executable tests of the library.
