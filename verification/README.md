# Paddle

A small Lisp interpreter whose core is verified with Verus: from source text to tokens,
expressions, values and the results of evaluation, each step is proved against a
mathematical statement of what it computes.

## Layout

- `src/lexer.rs`, `src/parser.rs`: tokens with line/column spans, and recursive-descent
  parsing into atoms and lists (quote marks become `quote`, `quasiquote`, `unquote` and
  `unquotesplicing` lists).
- `src/eval/`: values (`value.rs`), numbers as IEEE-754 bit patterns (`num.rs`), the store
  of frames (`env.rs`), lowering of expressions to values (`lower.rs`), the built-in
  procedures (`builtins/`), the meaning of evaluation as spec functions (`semantics.rs`),
  the trampolined evaluator proved against it (`eval.rs`), and printing (`display.rs`).
- `src/cursor.rs`: running source text expression by expression, and the paren check of
  the REPL.
- `src/laws.rs`: properties of the interpreter as a whole (scoping, `define`, `quote`,
  `if`, quasiquote, calls and macros, and that evaluation only ever extends the store).
- `app/`: the command line program: file and standard-input handling, the REPL, loading
  required files, and writing numbers in decimal.

Closures refer to frames by their index in the store, so a frame lives as long as the
store. Every evaluation runs on a step budget of 2^64 - 1 steps.

Input and output go through the store: `print` adds to its output, which the caller
takes with `Env::take_output`; `getchar` and `getline` read input given with
`Env::feed_input`. When they find no input left and `Env::close_input` has not been
called, evaluation stops with `InputNeeded`; the command then puts back the store it saved
before the expression, reads a line, and runs the expression again.
