# scribo

The verified core of Scribo, a local note-taking and spaced-repetition
knowledge base: notes are split into fragments, indexed for keyword and
vector search, tagged hierarchically, and studied as flashcards.

- `src/` is the library, written in Verus. Every function is proved against
  its contract (the clock readings, which depend on the time, promise only
  their type): the domain types and their stored names, the
  hierarchical tag parser and placement rules, the keyword query planner, the
  indexing decision, schema-version handling, revision recording, language
  voting, the embedding-cache bookkeeping of draft distribution, the
  reindexing queue's decisions and the command-line front end's choices.
  Calls into outside crates (BLAKE3, diffy, whatlang, stop-words, std's
  Unicode tables, integer parsing, paths and clock) go through small trusted wrappers whose
  contracts name what the call returns.
- `tests/` runs the library on concrete inputs.
- `app/` is ordinary Rust around the library: the SQLite repositories and
  schema migrations (rusqlite, r2d2), the reindexing worker, JSON forms of
  the distribution plan, and the floating-point vector search.
