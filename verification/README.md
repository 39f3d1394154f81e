# public_api_tricks

Lists the public API of a crate from its rustdoc JSON, resolving re-exports of
external crates (the "semver trick"), with the items sorted into a logical
grouping: struct fields right after their struct, and so on.

The library under `src/` is verified with Verus:

- `text_order`: the lexicographic orders on strings and on paths.
- `tokens`: the tokens an item is rendered as, and their text.
- `public_item`: a public item, its display, its equality, and `grouping_cmp`,
  with the laws that make it a total order on grouping keys.
- `grouping`: the stable sort of items by grouping, and its laws (it is
  unique, it leaves sorted items as they are, it keeps the items that extend
  an item's path right after it).
- `intermediate_public_item`: an item before it is rendered.
- `crate_set`: parsing rustdoc JSON, the main crate and the provided external
  crates, and the tags that tell them apart.
- `build_plan`: reading `cargo`'s JSON messages, and the decisions taken while
  building rustdoc JSON with `cargo`.
- `error`: the errors, and the text they are displayed as.
- `lib.rs`: `PublicApi`, whose items are always sorted by grouping.

`app/` runs `cargo` and reads the files it writes, handing their text to the
library.
