# azlang

A compiler and interpreter for `az`, a small programming language with
Azerbaijani keywords. A program, given as tokens, is parsed into a syntax
tree, checked by the validator (which resolves names, infers types and gives
every declaration its generated name, with the Azerbaijani letters folded to Latin ones), and then either turned
into Zig source code or run directly by the interpreter.

The library in `src/` is written in Verus; each function states what it
computes in its contract and the proofs are checked by the verifier.

- `lexer` – the tokens of the language.
- `parser` – the parser over a token stream, and the syntax tree (`ast`).
- `validator` – scopes, type inference and the checks of a program.
- `transpiler` – Zig code generation: expressions and statements, the
  built-in functions, the program layout (imports, definitions, `main`), and
  `readiness`, the test that a checked program can be generated.
- `runner` – the interpreter: evaluation of expressions and one statement at
  a time, answering what the program asks for (printing, stopping) as a list
  of actions.
- `translations` – the errors of the parser and the validator.
- `text`, `dict`, `utils` – text helpers, a name-keyed table, and the import
  lines of source files.
- `imports` – the files a source text imports, and the walk that gathers a
  file with its imports (each file once, imports before the importing text),
  one step per file read.

`app/` holds what lives outside the verified library: reading the files the
import walk asks for, the user-facing error messages, running the Zig compiler,
and carrying out the interpreter's actions.
