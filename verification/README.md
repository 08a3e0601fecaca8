# praxis

A JavaScript parser — scripts, modules and lone expressions, with the early errors of the
language — whose every function is proved against its contract: it cannot panic, it terminates on every
input, and each step keeps the contract written above it.

## Layout

- `src/span.rs` — byte ranges into the source.
- `src/text.rs` — comparing strings, and the two std string operations the parser needs.
- `src/lexer/` — tokens: `mod.rs` reads them one at a time under a goal symbol, `chars.rs`
  classifies characters, `scan.rs` scans identifiers, numbers, strings, templates and regular
  expressions, and `value.rs` reads a token's value back out of the source.
- `src/ast.rs` — the tree the parser builds.
- `src/parser/` — recursive descent over the tokens. `mod.rs` holds the parser's state and its
  invariant; each other file holds one part of the grammar (expressions, patterns, bindings,
  functions, classes, statements, modules), and `scope.rs` the declarations, labels and jumps
  that the early errors are about.
- `tests/` — the parser's behaviour on concrete sources.

## What the proofs say

Every parsing function takes a well-formed parser and leaves it well formed, reading the same
text, at the same nesting depth and no further back than it found it (`Parser::kept_from`);
those that succeed having read something say so (`Parser::moved_past`). Recursion is counted and
capped (`MAX_NESTING_DEPTH`), which is both what keeps a deeply nested input from exhausting the
stack and what proves that parsing terminates.

What a step keeps goes further than position. The labels open around it are the ones that were
open; the declarations open around it have only been added to; a block, a `for` and a `switch`
leave the lexical declarations as they found them, and a function body or a class static block
leaves the whole scope, the grammar parameters and what the enclosing function has noted as they
were. A declaration declares every name it binds where it stands — lexically in the innermost
block, or with `var` in the function (`Parser::parse_statement_list_item`). Only an `export`
declaration adds to the module's exported names, and a module that parses exports no name twice
(`parse_module`).

Every node the parser returns covers exactly the text read for it: it starts at the first token
read and ends where the last token read ends (`Parser::read_since`). Two shapes of the tree make
exceptions that are stated with it: a function's span starts at `function`, so an expression or a
statement that begins with `async function` starts there too (`Parser::read_after`), and a
`do`-`while` written without its `;` ends with its condition, as does a statement ending with one
(`Parser::read_statement`). The statements of a body and the items of a module come in source
order and never overlap (`in_source_order`).

The smaller pieces — the operator tables, the lexer's keyword and punctuator spellings, automatic
semicolon insertion, the names a binding binds, the declaration and label rules, the
cover-grammar records, the names an export exports — state exactly what they compute.

The lexer is stated whole. `lex_token` says, as spec functions over the bytes, which token
reading from a position under a goal gives, or which error stops it: the trivia skipped before
it (`trivia_end`, comments and Annex B's HTML-like comments included), then the scan its first
byte selects — the longest punctuator, an identifier or keyword, a number, a string, a template
piece or a regular expression — each with its own spec function. The values read back from a
token are stated the same way: what an escape stands for (`escape_at`), the code units of a
string or template (`cooked`), the exact value of a numeric literal (`literal_value`), the
bytes of an identifier (`identifier_bytes`). On the parser's side, `Parser::next_read` is the
token the lexer gives next, so the steps that read one token state exactly when they succeed.
