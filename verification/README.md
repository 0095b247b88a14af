# ndoc

A text document model for code editors, verified with Verus.

`src/` is the library. Its functions carry `requires` / `ensures`
contracts that Verus proves, except the small trusted wrappers around
outside crates, whose contracts Verus takes as given:

- `text`, `rope_utils`: the rope seen as a sequence of chars, its lines,
  grapheme and word boundaries, tab expansion, bytes and chars.
- `selection`, `history`, `document`, `motion`, `indent`: multi-cursor
  selections, the undo stack, editing, cursor motions and indentation.
- `doc_view`: lines as shown, columns, visible columns and bytes.
- `file_info`, `doc_file`: line endings, indentation and encodings, and
  the bytes of a document read from or written to a file.
- `syntax`: highlighting with syntect, resumable from cached states.
- `shortcut`, `settings`, `commands`: keyboard shortcuts, settings and the
  command registry.
- `filter`, `palette`, `scroll`, `editor_input`, `widgets`: the decisions of
  the editor front ends (filtered lists, palettes, scrolling, key and mouse
  input, status bar and colours).

Calls into outside crates (ropey, unicode-segmentation, encoding_rs,
chardetng, sublime_fuzzy, syntect) go through those wrappers. Their
contracts state what the crates' documentation and sources show; where a
result takes more than a few lines to state, it is given a name (an
uninterpreted spec function) and the library's contracts speak of it.

`tests/` runs the library on concrete values. `app/` is a small command-line
front end: it reads and writes files, loads the settings file and the syntax
and theme sets, and carries out editing commands.
