# tarama

Core of a document-scanning HTTP service for a Fujitsu fi-8150U scanner,
written in Verus.

- `src/` — the verified library:
  - `profile` — scan profiles (colour mode, resolution, name) by key;
  - `raster`, `autocrop`, `page` — page images, the white-border crop and the
    JPEG encoding of a page;
  - `scan` — the PowerShell/WIA script for one sheet, waiting for it, and
    judging its result;
  - `session` — the page-by-page scan of a document as a state machine;
  - `reply` — request settings and the JSON reply model;
  - `encoding` — standard Base64 and its decoding;
  - `text`, `error`, `arith` — decimal notation, trimming and comparing text,
    error texts, arithmetic lemmas.
- `app/main.rs` — the HTTP server (axum), process handling and file I/O.
- `tests/` — tests of the library.
