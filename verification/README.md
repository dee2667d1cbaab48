# rustrsssrv

A self-hosted RSS, Atom and JSON Feed aggregator whose decisions are
verified with Verus.

- `src/` is the verified library: request validation, article and feed
  pagination, reading feed documents, what a fetch comes to, backoff and
  politeness, content cleaning and image rewriting, OPML import and export,
  token and password handling, and what the web pages show. Each public
  function states its result in its contract; the laws that span several
  functions are public proof functions (`lemma_*`).
- `src/ext/` holds the trusted bindings to the outside crates the library
  computes with (`regex`, `rss`, `atom_syndication`, `serde_json`, `url`
  through `reqwest`, `chrono`, `blake3`, `base64`, `bcrypt`, `uuid`,
  `validator`, `jsonwebtoken`, `html-to-markdown-rs`, `readability`, `comrak`, `scraper`,
  `opml`, `quick-xml`). Each states what the crate's source or documentation
  shows, and nothing more.
- `app/` is the server around the library: settings from the environment,
  SQLite through `sqlx`, HTTP through `axum` and `reqwest`, JSON through
  `serde`, and the crawler loop.
- `tests/` exercises the library on concrete values.
