# aether

The verified core of the Aether terminal system monitor: the rule language
(lexer, parser, type checker, duration timers, reload pipeline), the key
handling and state of the terminal views, the web dashboard's response
logic, and the colour theme parser. Every function in `src/` carries a
contract that Verus proves, except the trusted items that stand for
standard-library calls (`String::push`, `char::from_u32`,
`str::to_lowercase` with the name `lowercase` for its result, and the text
of an I/O error) and the declaration of `std::io::Error`: their contracts
are believed, not proved.

Layout:

- `src/script/` — the rule language: `lexer`, `parser`, `ast`, `types`
  (type checker), `runtime` (duration timers, rule evaluation over each
  snapshot, engine statistics), `reload` (source text to checked rules, and the active rule
  set that a failed reload leaves unchanged), `bridge` (what each fired
  rule becomes for the views), and string helpers.
- `src/tui/` — tabs, input modes, help overlay, the Overview, Network,
  Arbiter, Diagnostics, Rules and World 3D tabs' selection and key
  handling, the text each view draws (process and connection tables,
  network summary, findings list and detail panel, pending actions, help),
  the connection search filter, the stable ordering of table rows
  (`tui/ordering.rs`),
  sparkline histories, and size formatting.
- `src/web/` — REST response data, errors and their status codes, asset
  content types, WebSocket client messages and world updates, and the
  metric history store.
- `src/palette.rs` — the palette, terminal colours and `#RRGGBB` theme
  parsing.
- `src/targets.rs` — monitored targets built from configuration entries,
  and the merge of discovered targets by id.
- `src/braille.rs` — the Braille pixel canvas (2 × 4 dots per cell).
- `src/tui/findings.rs` — the list of diagnostic findings and how new ones
  are merged into it.
- `app/main.rs` — a small command-line front end that checks rule files.
- `tests/` — tests of the library on concrete values.
