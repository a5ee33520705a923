# MusicBrainz ingestion

Catalog ingestion for MusicBrainz: an extraction run takes the newest dump in the data directory,
reads its JSONL files, attaches canonical `media` and `identifiers` blocks to each release, and publishes the
records to a message broker in batches.

- `src/` is the library, written in Verus. Every function states what it returns or changes, and
  Verus proves it, but for the calls that leave the library. What is said of those is believed:
  - `text`: `to_upper` (`str::to_uppercase`) and the specification of `String::push`;
  - `config`: `percent_encode` (`urlencoding::encode`) and `cpu_count` (`num_cpus::get`);
  - `telemetry/headers`: `insert_long_string`, `string_bytes` and `table_keys` (the header table
    of lapin, `FieldTable`), and `utf8_text` (`String::from_utf8`).
  - `musicbrainz/` maps releases (`media`, `identifiers`) and steers runs (`run`) and their
    schedule (`schedule`). The files ending in `_laws` state what holds of them as a whole.
  - `runtime` batches and publishes records and keeps the state that runs share.
  - `telemetry/` says what is measured, and with which attributes.
  - `config` and `startup` decide over the environment.
  - `text`, `ordered`, `table`, `names`, `json` and `types` are what the rest is built on.
- `app/` is the program around it: files, the broker, signals, exporters.
- `tests/` runs the library on concrete values.

The library reads no clock: a caller hands in readings in nanoseconds, and durations and ratios
stay integers until they are exported.
