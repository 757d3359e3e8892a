# talos

A terminal dashboard for a directory full of git clones: which need pulling,
which need pushing, which have uncommitted work, and which are not
repositories at all.

- `src/` is the verified library.
  - `repo.rs`: the states, their labels and colours, the row type.
  - `text.rs`: white space, words, trimming, unsigned decimal numbers.
  - `order.rs`: a stable sort by (rank, flag, text) keys.
  - `scan.rs`: how git's answers become a row (a probe that asks one query
    at a time), when a fetch is due, which directories are scanned, and the
    order of the rows.
  - `ui.rs`: the dashboard's state machine (scan requests, finished scans,
    the auto-rescan clock, keys) and what the header, table and footer say.
  - `cli.rs`: command-line defaults.
- `app/` runs git, reads the directory, drives the terminal and draws.
- `tests/` exercises the library.
