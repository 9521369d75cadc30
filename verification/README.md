# fog

A small functional language: its lexer, parser, static checks,
A-normal form and interpreter, written in Verus with their behaviour stated and proved.

- `src/lexer`: characters to tokens.
- `src/parser`: tokens to parsed statements, operator resolution, and the
  core language that the later phases read; each form can be written back
  as text.
- `src/static_check`: kinds, type schemes and their equality, the typing
  environment, and the checks of a program.
- `src/anf`: the A-normal form of a program, with the top-level
  declarations ordered by their dependencies (Tarjan's strongly connected
  components, in `scc.rs`, of a graph given as a map or as a list, and
  the ordering, in `dependencies.rs`).
- `src/interpreter`: the interpreter's types and kinds, its values and
  the patterns that take them apart (`value.rs`), and eager evaluation of a
  program in A-normal form (`eval.rs`). Evaluation spends fuel, so that it
  always returns; running out of fuel is an outcome of its own, and more
  fuel changes no other outcome. Input and output actions are values;
  `io.rs` runs one a step at a time, each step saying what to print or
  asking for a line, which the caller reads and hands back.
- `app/`: the command-line program, which reads a file and prints what the
  phases report.
