# astra

The verified core of the Astra drawing canvas, written in Verus.

- `src/` is the library: colours and `#rrggbb` parsing, shape styles and
  their cycling order, grid styles, the text editor's key handling and caret
  blinking, tool sessions, formula segmentation of text lines, PNG encoding
  with the scene embedded as a compressed text chunk, tiled export planning
  and row stitching, font registration (with WOFF2 decompression), the
  least-recently-used render caches, and the hashing and random-number
  helpers behind the hand-drawn look. Public `proof fn`s state the laws that
  hold across calls (cycles of `next`, round trips of conversions, partitions
  of export tiles, which cache entries survive eviction, and so on). Its
  functions carry `requires`/`ensures` contracts that Verus proves, except
  four small wrappers around outside crates, whose contracts are trusted.
- Calls into outside crates (`png`, `wuff`) go through those wrappers; each
  one's doc comment says what its contract claims of the outside code.
- `tests/` exercises the library on concrete values.
- `app/` is the unverified rest: serde and peniko/parley glue, floating-point
  geometry, process-wide counters and font files.
