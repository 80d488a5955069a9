# calibre

Native, synchronous access to existing Calibre libraries (schema version 27).

- `src/` is the verified core, checked by Verus: metadata models, path
  containment and sanitisation, sort values, publication dates, the `SQLite`
  query plan for book listings, schema requirements, recovery-journal
  encodings and the plans that resolve interrupted writes, trash layout and
  expiry, audit findings, custom-column definitions and the `metadata.opf`
  document. Each public function states its result in its contract; the laws
  of the library (round trips, recovery decisions, write gating) are public
  proof functions.
- `app/` performs the work the core decides: it opens `metadata.db` with
  `rusqlite`, reads and writes rows and files, stores journals as JSON and runs
  the recovery plans.
- `tests/` exercises the core on concrete values.
