# wattdog

PowerMon watchdog for PiKVM/Raspberry Pi systems, with its rules verified by Verus.

Thornwave BLE advertisements become samples. Samples are shown as metrics, stored in local
Parquet files, and measured against thresholds that drive HTTP actions.

## Layout

- `src/` is the library. Verus proves the contract of every function, apart from single
  calls into other crates.
  - `sample`, `calendar`, `clock`, `float`, `text`: values. Floating-point numbers are held
    as their IEEE 754 encodings, URLs and JSON documents as texts.
  - `config`, `diagnostics`: configuration, its validation and the messages about it.
  - `state`: threshold comparison (`condition`), one output (`machine`), all of them
    (`engine`), and what holds of them over time (`properties`, `secrecy`).
  - `action`: what to send for an action and what a reply means.
  - `metrics`, `http_server`: counters, gauges and their exposition.
  - `parquet_writer`: names of files, the table of samples, and the order of file
    operations.
  - `processor`, `scanner`, `cli`: the remaining decisions of the daemon.
  - `address`, `columns`, `exposition`, `json`: calls into `url`, `arrow`,
    `prometheus-client` and `serde_json`, whose contracts are trusted.
- `app/` is the daemon: command line, files, network, signals and the scanner interface.
- `extras/thornwave_scan.h` is the C interface that the daemon expects of the scanner.
- `tests/` runs the library.

## Promises

- A transition fires only after its condition held for its full duration. One measurement
  that breaks it starts the time anew.
- A stale input pauses decisions, but an action that was begun goes on.
- A failed action leaves the applied state as it was and is tried again after a delay that
  doubles up to a maximum.
- The steps of an action come in order, and a hold separates two transitions.
- Nothing that the metrics show depends on action URLs.
- Every value that is counted or set has its line in the text of the metrics, and the
  metrics of a device are those of its last sample.
- Every observation is handed to the writer or counted as dropped.
- A sample file gets its final name only after it was closed. Every sample waits in order
  until its batch is written; a batch that cannot be written is counted and dropped.
