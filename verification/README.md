# muskitty-css-values

Typed CSS value parsing — CSS Values and Units Level 4 and CSS Variables
Level 1 — verified with Verus. The text is tokenized and parsed into
component values by `muskitty-css`; this crate matches those component
values against the value grammars and builds typed values: lengths, angles,
times, frequencies, resolutions, ratios, numbers, integers, keywords,
identifiers, strings, urls, math expression trees (`calc()`, `min()`,
`max()`, `clamp()`) and `var()` references. Nothing is computed and `var()`
is not substituted.

## Layout

- `src/` — the verified library. Each parser states, over spec functions of
  the component values, exactly which lists it accepts, what it builds from
  them and the message with which it refuses the others.
  - `syntax.rs` — component values as plain values, and the call into
    `muskitty-css` that produces them.
  - `numeric.rs`, `textual.rs`, `var.rs` — single values and `var()`.
  - `calc_grammar.rs` — the grammar of math expressions as spec functions,
    and its lemmas; `math.rs` — the left-to-right parser proved against it.
  - `serialize.rs` — serialization (§8.1, §9.7) as characters and numbers.
  - `grammar.rs` — dispatch by value kind (CSS Syntax §5.4.1).
  - `binary64.rs` — numbers, held by their IEEE 754 bit pattern.
- `tests/` — the tests, run against the compiled library.
- `app/` — the `Grammar` trait of the `muskitty-css` parser, an error type
  with `Display`, and the writing of numbers, none of which Verus reads.
