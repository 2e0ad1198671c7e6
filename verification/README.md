# roc_analysis

The analysis layer of a language server for Roc, verified with Verus.

- `src/prefix.rs`: the symbol that is being typed at an offset of a source.
- `src/paths.rs`: directories, repositories and URLs of source files.
- `src/lsp.rs`: the values that an editor is answered with.
- `src/document.rs`: `DocInfo`, a version of a document, and what can be said of it
  without an analysis.
- `src/analyzed.rs`: `AnalyzedDocument`, and the queries and answers of the requests
  about it.
- `src/builder.rs`: from a loaded program to its documents.
- `app/`: the server's side, which calls the compiler and the file system.

The compiler's own values (types, declarations, interned names, tables of lines) are
type parameters of the library. What is to be looked up in them is handed out as a
query, and what was found is handed back, so that the library is proved correct
whatever the compiler finds.

Paths and URLs are those of the standard library and the `url` crate, carried as they
are. How a path is read, and which URL it has, depends on the target. The contracts speak
of the outcomes of those calls as relations between arguments and result, and a
function beside each takes the outcome as an argument. Of paths that all targets divide at
the same places, they also say which components the result has, and how its URL is
spelled.
