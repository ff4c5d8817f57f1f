# goboscript front end

The front end of the goboscript compiler: it reads a sprite source into a
syntax tree, and obfuscates the numbers of a project's scripts. Every
function of the library is verified with Verus against a contract.

`src/` is the verified library:

- `lexer.rs`: the tokenizer, stated by `spec_lex`, with the laws that tokens
  and diagnostics lie in order inside the source; `string_value` resolves the
  escapes of string literals.
- `digits.rs`: natural numbers of any size as digit lists (products by a
  whole number, sums, equality).
- `literal.rs`: number literals and their exact value, which the parser
  records on each literal as digit lists.
- `comments.rs`: the laws that a comment reads as blank space, for the
  tokenizer and for the whole parse.
- `pre_processor.rs`: `%define` / `%undef` macros, stated by `spec_preprocess`.
- `grammar.rs`: the grammar of a sprite as recursive-descent rules
  (`spec_*`) and the parser that follows them.
- `parser.rs`: `parse`, the pipeline tokenize, preprocess, parse.
- `visitor/pass5.rs`: `visit_project`, the number obfuscation pass. Every
  number is classified by its exact value (zero, non-zero, or none for a
  division by zero), numbers that an earlier run derived included, and the
  law states that every number keeps its exact value.
- `ast.rs`, `token.rs`, `diagnostic.rs`, `translation_unit.rs`: the data.

`app/` reads files and evaluates numbers as floating point, which the
library cannot hold. `tests/` holds the tests.
