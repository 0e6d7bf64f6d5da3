# lacon

An interpreter for lacon, a small functional language, as a library whose
behaviour is stated in contracts and proved with Verus, plus a thin
command-line program around it.

`lacon run <file.lc>` lexes, lays out, parses and evaluates a program, then
exits as its `main` says.

## Layout

- `src/` — the verified library:
  - `token.rs`, `lexer.rs` — tokens and the lexer (longest match, keywords
    over identifiers, byte spans), with its model of lexemes;
  - `layout.rs` — the indentation pass (`Newline`, `Indent`, `Dedent`) and
    its laws: content kept, newlines resolved, levels balanced;
  - `ast.rs`, `grammar.rs`, `parser.rs` — the syntax tree, the grammar as
    spec functions, and the recursive-descent parser proved against it;
  - `value.rs`, `semantics.rs`, `eval.rs`, `display.rs` — values and
    persistent environments, the big-step semantics, the evaluator proved
    against it, and the text of values;
  - `report.rs`, `pipeline.rs` — error messages, and running a parsed
    program to its exit;
  - `host.rs` — what the library asks of its host (floating-point
    arithmetic and the text of floats), the questions it puts, and the
    trace of an evaluation: what it printed, what the host answered and the
    texts it gave floats, each asked once. Contracts hold for every model of
    the host that gives what the trace keeps, and such a model exists.
- `app/` — the program: reading files, rendering parse errors with
  `ariadne`, and a host that computes with `f64`.
- `tests/` — tests of the library on concrete programs.
