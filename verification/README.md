# tgb_cli

A collector for public articles of the tgb.cn forum: it crawls the hot list,
single articles, author blogs and the elite or pinned posts of a catalog of
authors, stores articles, crawl runs and errors in SQLite, and exports
articles as JSON Lines, CSV, Markdown or plain text.

## Layout

- `src/` is the library, written in Verus and verified. It holds the rules
  of the program as functions with contracts:
  - `text`: Unicode whitespace, trimming, the inline normal form of text,
    joining and decimal notation;
  - `datetime`: the accepted date-time forms, year-less dates resolved
    against a range, and instant comparison;
  - `html`: the elements that CSS selectors pick out of a page, element text,
    and removal of script and style markup;
  - `parser` and `listing`: article and author identities in addresses,
    article bodies and metadata, and the entries of hot and blog lists;
  - `model`: articles and run counters;
  - `store`: how a new record of an article merges with the stored one, and
    the export query;
  - `crawl`: argument checks, list addresses, de-duplication, VIP selection,
    run counters, body ordering and the final run status;
  - `client`: which HTTP statuses are retried, the backoff, and the decision
    after each attempt;
  - `export`: the four export formats;
  - `cli`: the command line as plain values.

  Calls into chrono, scraper, regex, url, sha2, serde_json and csv stand
  behind small trusted wrappers whose contracts name or state what those
  crates return.
- `app/` is the command-line program around the library: argument parsing
  with clap, HTTP with reqwest and tokio, SQLite with rusqlite, files and
  console output.
- `tests/` runs the library on concrete pages and records.
