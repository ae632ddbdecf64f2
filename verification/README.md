# capla extractor

Reads the function signatures of Capla (`.b`) sources, checks which of them can
be exported to CertiRocq, and lets the user choose the exported functions and
their names, either interactively or with one prefix for all.

- `src/` is the verified library (Verus):
  - `chars.rs`: character classes, decimal text, trimming, substring search;
  - `types.rs`: the signature types, their models and their C/Rocq texts;
  - `validate.rs`: the validation rules for a signature;
  - `grammar.rs`: the signature grammar, as a specification and a reader;
  - `export.rs`: export names and the one-line text of a signature;
  - `picker.rs`: the state machine of the interactive picker.
- `app/` is the command-line program: arguments, file reading, the terminal
  interface.
- `tests/` runs the library on concrete inputs.

The C code generator that turns the chosen functions into `<stem>.h` and
`<stem>.c` is not part of this repository: `app/` checks and selects the
functions, and then reports that no generator is linked in, without writing
any file. The OCaml entry point is not built either, since its binding crate
needs an OCaml installation.
