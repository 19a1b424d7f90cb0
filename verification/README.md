# mdya

Search over local Markdown collections, as a command and as an MCP server.

- `src/` is the library. It cuts documents into chunks, decides what a run over
  the collections reads, writes and removes, checks the configuration, and
  answers lookups and reports. Every function states what it returns in
  `requires` and `ensures`, and Verus proves it. What holds across functions
  stands as public proof functions beside them: that no text of a document is
  lost on its way into the chunks, that tables which a broken run left apart are
  brought together by the next one, that an unchanged file is passed over unread,
  that what is written of a configuration reads back as that configuration, that
  a quoted literal reads back as its value.
- `app/` is the program around it: the command line, the files, the tables, the
  models and the server.
- `tests/` runs the library on concrete documents, paths, rows and requests, and
  holds its primitives against the standard library.

Calls into other crates stand behind small functions marked
`#[verifier::external_body]`; the comment above each says what is taken on
trust. The PDF extractor and the tokenizer can panic on what cannot be told
beforehand: `app/` makes those calls, catches the panic, and hands the library
functions to call. It also turns the configuration's plain values into YAML and
back, and takes paths apart as the machine writes them.
