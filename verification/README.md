# ezscn

A lexer and a recursive-descent parser for the ezscn language,
written in Verus and proved against specifications of the grammar.

## Layout

- `src/tokens.rs` - spans, tokens, token kinds and string-literal flags.
- `src/chars.rs` - character classes and the byte/character model of text.
- `src/lexer.rs` - the tokenizer. Each token is specified by `spec_next_token`
  over the characters of the text; `TokenStream` adds one token of look-ahead.
- `src/string.rs` - escape sequences, number parsing by radix, and the check
  on the text of floating-point literals.
- `src/error.rs` - the errors the parser records.
- `src/ast.rs`, `src/ast/` - the syntax tree and its abstract views.
- `src/parser.rs`, `src/parser/` - the parser. Each parsing function has an
  abstract counterpart (`p_*`) over the parser state (`PState`). The `ensures`
  of each function states that it returns that counterpart's result and leaves
  the state it gives. Errors are only ever appended.
- `app/` - ordinary Rust around the library: the visitor over syntax trees,
  and the value of floating-point literals.
- `tests/` - the tests.

Unicode identifier classes come from `unicode-ident`. The floating-point
values of literals come from `ordered-float`, in `app/`.

Lists in the syntax tree and the parser's error list are `Vec`s. A
`thin_vec::ThinVec` inside the recursive syntax-tree types was refused by
Verus, both declared as an outside type and held in an opaque struct, so the
library uses the `Vec` that vstd specifies.

The visitor stays in `app/`. Its walk recurses through default trait
methods that users override, and Verus accepts such recursion neither with
a `decreases` clause nor without one.
