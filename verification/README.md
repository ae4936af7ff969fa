# rsscli

A command-line reader for RSS, Atom and JSON feeds that keeps feeds and their
articles in a local SQLite database.

The library under `src/` is written in Verus; its contracts are proved.

- `store.rs`: the tables as a mathematical model (`StoreView`) with the rules
  for adding, updating, pruning and marking articles, and the executable
  `Store` that follows them.
- `db.rs`: `DbClient`, which writes each change to SQLite and then applies it
  to the model. The statements and the values bound to them are built by
  functions whose contracts give them exactly; what SQLite then does with them
  is not verified, so the contents of the file rest on SQLite. `sqlite.rs`
  holds the calls into rusqlite.
- `fetch.rs`: parsing feeds, turning a parsed feed into refresh events,
  applying them, adding a fetched feed, and importing an OPML subscription
  list.
- `scan.rs`: which feed bodies feed_rs can parse without panicking on a
  podcast play time or on an e-mail address in a person field; those where
  such a value may make it panic are refused with `FetchError::Unsupported`.
- `export.rs`: articles as Markdown or pretty-printed JSON.
- `cli.rs`: the command-line types, the feed table and `mark-read`.
- `laws.rs`: properties that span several operations, stated and proved.
- `timestamp.rs`, `text.rs`, `models.rs`: dates, text helpers, the records.

`app/` is the program around the library: argument parsing, HTTP requests,
the concurrent refresh, and printing.
