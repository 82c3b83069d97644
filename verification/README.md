# ze2

The core of a terminal text editor, written in Verus: the functions in
`src/` are proved against their contracts, apart from a few one-line
wrappers around standard-library functions whose contracts are trusted.

- `src/` — the library: VT and keyboard/mouse input parsing (`vt`, `input`),
  UTF-8 decoding (`utf8`), the command bar's command language (`commands`),
  settings files (`settings`), documents and their bookkeeping (`document`,
  `documents`), word navigation (`navigation`), fuzzy matching (`fuzzy`),
  path normalization (`path`), base64 (`base64`), colors (`oklab`), the
  framebuffer (`framebuffer`), the UI's layout engine (`layout`), node index
  (`node_map`), focus movement (`focus`), mouse tracking (`mouse`),
  per-frame input (`frame`), hit testing on the last frame's tree (`hit`),
  scroll areas and text areas (`scrollarea`, `textarea`, `textarea_mouse`),
  how a node is drawn (`render`), the command bar, search panel, View menu
  and close dialogs (`commandbar`, `search`, `menu`, `closing`), a JSON
  reader for settings files (`json`), line seeking (`simd`), the browser
  front end's input (`web`), and smaller helpers.
- `tests/` — tests of the library on concrete values.
- `app/` — the `ze2` program: command-line handling, file and settings I/O,
  and the floating-point color blending, none of which is verified.
