# synapse

A code-intelligence graph indexer: it parses source files with tree-sitter,
stores files, symbols, calls and imports in an embedded graph database, links
them into a global graph, and answers queries over it (callers, callees,
dependencies, context, blast radius, PageRank, dead code), from the command
line, an interactive shell, or an MCP server.

The library in `src/` is written in Verus and verified. Its contracts state
what each function computes; where a result comes from an outside crate
(the tree a tree-sitter grammar builds, a SHA-256 digest, std's path
decomposition and Unicode lowercasing), the contract states it over a named
result of that call, and the trusted wrappers that make the calls say what
they claim of them. The properties that span several functions are proved
as lemmas.

- `parser/`: the per-language walks over tree-sitter syntax trees (declarations,
  containment edges, imports, calls); `parser/grammar.rs` loads the grammars
  and parses behind trusted wrappers.
- `resolver.rs`: resolving imports to files and calls to symbols.
- `impact.rs`, `dead_code.rs`, `ranking.rs`: blast radius by shortest call
  chains, dead-code detection, and the ordering of results by score and id.
- `query/`: target resolution, output formats and rendering, the shell's
  commands.
- `watch.rs`, `post_index.rs`, `index.rs`, `processor.rs`, `chunker.rs`,
  `schema.rs`, `file_utils.rs`: the decisions of indexing and watching.
- `mcp/`: tool identities, the repository registry, error mapping.
- `text.rs`, `paths.rs`: text and path primitives.

`app/` is ordinary Rust around the library: the command line, the database,
the file walk and the watcher's loop, embeddings and PageRank (floating
point), and the MCP transport.
