# matc

A front end for the `mat` language, verified with Verus: a parser from
source text to a syntax tree, and the semantic checks that run on it.

- `src/` is the library. Every function there has a contract that Verus
  proves: the grammar is written as spec functions over the characters of
  the source (`lex`, `literal`, `expr`, `stmt`, `parser`), and each parsing
  function returns exactly what the grammar says. The semantic checks
  (`local_resolver`, `dereference_checker`, `type_resolver`, `type_table`,
  `sema`) are specified over a model of the syntax tree (`ast`) and of the
  scope tree (`scope`). Calls into `internment`, `linked-hash-map` and
  `Inflector` go through small wrappers whose contracts are trusted.
- `app/` is the `matc` command: argument handling, reading the file, and
  printing diagnostics with `ariadne`.
- `tests/` runs the library on concrete programs.

## Parse errors

The grammar is this project's own, written as functions on characters;
how a parser library chooses and words its errors is not. A source that
is not a compilation unit gives one `ParseError`: the span of the first
character after the imports and definitions that could be read, that
character, and the labelled rule being read there, if any (an import, or
a variable definition). Its report says "unexpected token" (or
"unexpected end of input"), "while parsing" the rule when there is one,
and names the character found; it carries no list of expected tokens, and
no message of its own for an integer literal out of range, which is
reported like any other definition that cannot be read.
