# momentum

A point-in-time research pipeline for intraday momentum on US equities:
trading calendar, security identifiers, classification rules, the
earnings calendar, the EDGAR acceptance backfill, reference-data
enrichment over REST, and the integer bookkeeping of the forward-outcome,
rolling-state and regime passes.

## Layout

- `src/` — the library, written in Verus. Verus proves every function
  against its `requires`/`ensures` contract (small private helpers whose
  only duty is to verify may have none); laws that relate
  several functions are public `proof fn law_*` items. Calls into
  `chrono`, `chrono-tz`, `fastrand` and `flate2` (and two of std's
  string functions) go through small `#[verifier::external_body]`
  wrappers whose contracts name or state what they return. The column
  layouts of the output tables are `src/layouts.rs`; `app/` maps them to
  Arrow types.
- `tests/` — ordinary Rust tests of the library.
- `app/` — the command-line program around the library: environment and
  arguments, HTTP (`reqwest`), S3 (`aws-sdk-s3`), Parquet/Arrow files,
  async fan-out (`tokio`), and the statistics computed on `f64` prices.

Run `momentum <command>`; the commands are listed at the top of
`app/main.rs`.
