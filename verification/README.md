# lib — a verified front end for a small scripting language

The library turns source text into tokens and tokens into a syntax tree.
Every executable function in `src/` carries a contract that Verus proves.

## Layout

- `src/text.rs` — character-level helpers (decimal numbers, padding).
- `src/throw.rs` — the error log that the scanner reports into.
- `src/lexical/` — token kinds and literal values, tokens, the reserved
  words (kept as a verified list of entries: with string keys, vstd's
  `HashMap` specification does not let a lookup be proved, even right after
  an insertion), `lexing.rs` (the scan as spec functions over the characters, with
  the laws it obeys) and `scanner.rs` (the scanner, proved to compute it).
- `src/abstract_syntax_tree/` — the syntax tree (`ast.rs`), its
  mathematical twin (`model.rs`), and copies of trees (`duplicate.rs`).
- `src/parser/` — `grammar.rs` (the grammar as spec functions over the token
  sequence) and `parser.rs` (the recursive-descent parser, proved to compute
  it, with error recovery between declarations).
- `src/parse/` — a bare parser state: a token list and a cursor.
- `src/analysis.rs` — the whole front end on one text: scan, then parse
  when the scan reported no error.
- `tests/` — scenario tests of the scanner, the parser and the helpers.
- `app/` — the command-line program: reads a file, scans, parses, prints.

## Contracts in brief

- `Scanner::run` ends in exactly the state `scan_all` describes: tokens,
  line count and error messages.
- `Parser::parse_program` returns exactly what `program` describes: the
  statements when no declaration fails, otherwise every error in order.
- Parsing of a bare condition (`if x { ... }`, also `else if`, `while`,
  `for ... in` and `match`) reads no struct literal there, so the brace opens
  the body; inside parentheses struct literals are read again.
- `parse_program` stops at the first end-of-file token and never reads past it.
- Laws: a scan only appends to what it started with, reads to the end of the
  text (its end-of-file token is on line 1 plus the line breaks), ends with
  exactly one end-of-file token, gives every token a stretch of the source as its text
  and never lets token lines decrease; its tokens can always be handed to
  the parser; recovery after an error stops at the first statement boundary after the
  faulty token; single characters, two-character operators and string
  literals are each read as one token; a refused
  program is answered with at least one error.
