# sma_controller

Automatic power limiter for the SMA 180-21 inverter. Every
`poll_interval_secs` seconds it runs once: it reads today's quarter-hour
spot-price CSV, finds the slot of the current time, and
sets the inverter's active power limit to the configured limit while the price
is below the threshold, or to full power otherwise. It writes only when the
inverter's current limit differs, checks every write by reading it back after
5 seconds, and logs in again and retries once when the check fails. On
SIGTERM or Ctrl-C it restores full power before it exits.

Layout:

- `src/` — the verified library (Verus):
  - `text.rs` character helpers (trim, split, lines, decimal digits);
  - `decimal.rs` exact decimal prices and their order;
  - `clock.rs` times of day and the chrono calls (time parsing, local clock);
  - `csv_parser.rs` the price file format and the slot lookup;
  - `config.rs` the configuration, its rules, base URL and price-file path;
  - `json.rs`, `inverter.rs` WebConnect requests and the reading of replies;
  - `controller.rs` one control run as a state machine, with its laws;
  - `daemon.rs` the polling loop and the shutdown that restores full power;
  - `cli.rs` the command line.
- `app/` — the program: configuration file (TOML), HTTP, file reading,
  logging, and the loop that performs the state machine's actions.
- `tests/` — tests of the library.

Prices are held as exact decimals, not floating point: a price line's third
column must be a plain decimal number (optional sign, digits, at most one
point, at most 255 digits after it, digits worth at most `u64::MAX`).
