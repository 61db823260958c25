# shirobai_core

Layout and style rules for Ruby source, verified with Verus. Most rules take
the source bytes, parse them with prism and report their offenses as byte
ranges (with messages and fixes where the rule has them).

- `src/syntax/`: prism's tree flattened into a pre-order vector of nodes
  (`flatten`, `fields`), typed access to the node fields (`access`), the node
  kinds and field numbers (`kinds`) and the order in which the rules see the
  nodes (`walk`). The parse and its conversion into plain values stand behind
  one trusted item in `flatten`, whose result is named `prism_tree(source)`;
  the readers of `fields` are part of that conversion. Everything after it,
  from the generic-visit flags on, is verified.
- `src/rules/`: one module per rule, plus shared helpers (`bytes`, `lines`,
  `space_scan`, `tokens`, `trailing_comma`). Each rule states its result as a
  spec function over the tree of the source and proves that the executable
  code computes exactly that. Laws that relate several functions are public
  proof functions next to the code they speak of.
- `tests/`: the rules' examples, run against the compiled library.

## What is not here

- `Layout/SpaceAroundOperators` stops after its walk (`run_walk`): the
  decided offenses and the excess-space candidates. The alignment step that
  settles the candidates against the token stream needs an aligner and a line
  index that this crate does not have, so there is no
  `check_space_around_operators` and no `resolve`.
- The RSpec empty-line rules (`RSpec/EmptyLineAfterExample` and its family)
  are not here.
- `translate_tokens` takes prism's lexer stream as its input; the crate does
  not call the lexer itself.
- The regions where a `;`, a parenthesis or a first argument is not a token
  (strings, symbols, regular expressions, heredoc bodies, `$;`) are not
  computed here: `Style/Semicolon`, `Layout/SpaceInsideParens` and
  `Layout/SpaceBeforeFirstArg` mask comments and the `__END__` section, and
  take any further regions from their callers.
