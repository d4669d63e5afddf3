# tunmux-speedtest

A Speedtest.net and iperf client whose logic is verified with Verus.

- `src/` is the library. It holds the protocols, the measuring and the decisions, as functions on
  plain values. Contracts state what the functions return or change, and Verus proves them. Of what
  the clock reads nothing is stated; the functions that work on a reading take it as an argument.
- `app/` is the program around it: sockets, HTTP, websockets, files, the terminal, and everything
  that is floating point.
- `tests/` runs the library on given values.

## The library

| module | what it holds |
| --- | --- |
| `cli` | the command line: its grammar, defaults and conflicts |
| `num` | exact fractions, rates, ordering, rounding and wide products; floating-point numbers as bits, with exact signs of their sums |
| `text`, `json`, `urls`, `clock` | texts, JSON trees, URLs and the wall clock |
| `iperf` | control session, datagram format and loss counting, proxies, server choice, report |
| `speedtest::throughput` | sample buckets, trimmed speed, blending, advice on connections and sizes |
| `speedtest::{servers, catalog, session, select, latency}` | catalogs, cookies, latency statistics and ranking |
| `speedtest::{engine, engine_stages, download, upload, workers, transfer_util}` | the stages of a run and what their workers do |
| `speedtest::browser_protocol`, `speedtest::modern_protocol` | endpoints, requests, websocket exchanges, upload reports, the line protocol |
| `speedtest::sdk_payload` | the report that is saved, with its speed profiles and checksum |
| `output`, `ui`, `runner` | what is printed and shown |

Calls into outside crates go through a few trusted functions, each with a doc comment that says
what is believed of it: `url` in `urls`, `serde_json` in `json`, `roxmltree` in
`speedtest::config`, `md5` in `speedtest::sdk_payload::util`, `chrono` and the system clock in
`clock`, and the decoding of UTF-8 in `text`.

## Laws

Beyond the contracts, public proof functions state what holds across functions. Some of them:

- `servers::merged_ids_are_distinct`, `merging_prefers_fetched`, `merging_loses_no_id`
- `throughput::recording_accounts_for_every_byte`, `mst_is_the_fastest_choice`,
  `warm_up_and_order_do_not_matter`, `blend_stays_between`, `frozen_connections_stay_frozen`
- `sdk_payload::buckets::building_conserves_bytes`, `built_buckets_follow_one_another`
- `iperf::udp_packet::header_reads_back`, `iperf::proxy::socks5::relayed_payload_reads_back`
- `session::set_cookie_touches_one_name`
- `cli::accepted_runs_are_consistent`, `runner::accepted_arguments_can_be_run`
