# rlisp

A small Lisp: a reader for s-expressions and a compiler of arithmetic,
`def!` and `let*` to LLVM, run by a JIT in an interactive loop.

- `src/` is the verified library (Verus).
  - `syntax` — atoms and s-expressions, their mathematical values and how
    they are displayed.
  - `parser` — the reader, a function on characters with a grammar stated
    as spec functions; `parser::laws` proves what it reads is well formed,
    that comments read as nothing, and that atoms read back from their text.
  - `compile` — the compiler as a function from an expression and the known
    global variables to an outcome (float code, a builtin, an error or an
    abort) and a list of effects on the LLVM module; `compile::laws` proves
    case-insensitive symbols, that a definition is found again, that the
    globals follow the effects, and that saved stack pointers are restored
    last in, first out.
  - `repl`, `error` — one turn of the interactive loop, and the error type.
- `app/` carries the effects out with inkwell, runs the JIT, and holds
  `main`, file reading and the loop's input and output.
- `tests/` runs the library on concrete inputs, among them a comparison of
  the reader with the same grammar built from `combine` parsers.
