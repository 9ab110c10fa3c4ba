# eve_log

A verified reader of EVE Online game logs (`Gamelogs/*.txt`).

- `src/` is the library, checked by Verus:
  - `text` — substring search, splitting, byte-range slicing and decimal
    parsing over the characters of a string;
  - `pattern` — the regular expressions, called through the `regex` crate;
  - `language` — the phrases of each client language and how a combat line
    is told apart by them;
  - `reader` — the header check, user details, language detection and the
    step-by-step reading of multi-line records, with the laws that reading
    loses and invents no text;
  - `log` — a log: its user and language, line normalization and
    classification;
  - `log_entry` — one event, built field by field;
  - `dir_watcher` — which entries of the log folder are game logs.
- `app/` is the program around it: file access, printing, the serde form of
  a log entry, and the folder scan.
- `tests/` runs the library on in-memory log files.
