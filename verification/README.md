# kat_datasource

Trace and dataset handling for KAT, written in Verus. The decisions — how a
Hitrace container is laid out, which ftrace evidence a capture must carry,
how a text `trace` file is read, which Dataset bindings and table names are
valid, how Source rows are numbered — are made by verified functions whose
contracts state their results exactly. Reading files and writing Parquet is
left to a thin layer around them.

## Layout

- `src/` — the verified library.
  - `hitrace/` — the `.htrace` container (`container`), trace and snapshot
    clocks (`clocks`), validation of ftrace evidence (`validate`, and
    `long_term` for the record-by-record reading that judges a capture at
    its end), per-CPU context-switch continuity (`continuity`), skipped
    content (`report`), the capture reader (`decoder`) and the row spool
    format (`spool`).
  - `ftrace_text/` — text ftrace: line fields, event payload grammars,
    the decoder with its summary of skipped events, the numbering of
    Source rows, and the relational rows of decoded events (`relations`).
  - `dataset/` — names, bindings, write targets, table registration,
    resolution and inspection of Datasets.
  - `protobuf_source/` — Native Hook envelope routing and clock admission,
    Source relation and enum checks, row ids, write-buffer estimates and the
    envelope provenance table.
  - `plan.rs`, `row_sources.rs`, `cells.rs` — relational expansion of
    decoded payloads: the tables a root message expands into, where each
    table's rows come from in a payload, and what a value puts into a
    column.
  - `relational.rs`, `trace_streamer.rs` (also how each stored SQLite
    value converts), `text.rs`, `number.rs`,
    `sorted.rs`, `paths.rs` — naming rules, SQL quoting and the text,
    number and sorted-set helpers the rest is built on.
- `tests/` — tests of the library on concrete values.
- `app/` — file, SQLite and Parquet I/O: importing Hitrace and text ftrace
  captures and Trace Streamer databases into Datasets, decoding Hitrace into
  relations, and the Dataset metadata file.

The laws of the library are public proof functions next to the functions
they speak of, for example `hitrace::continuity::lemma_apply_keeps_continuity`,
`hitrace::spool::lemma_row_roundtrip`, `hitrace::container::lemma_container_laid_out`
and `ftrace_text::decode::lemma_decode_accounts_for_every_record`.
