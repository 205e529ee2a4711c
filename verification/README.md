# usage monitor

A terminal monitor of a coding assistant's usage: it reads the assistant's
session logs (`projects/**/*.jsonl` under its data directory) and shows
API-equivalent cost, token counts, rolling five-hour and seven-day windows, a
Sonnet-only slice, the current session, per-model and per-project breakdowns,
and the live plan quota from the provider's OAuth usage endpoint.

## Layout

- `src/` — the verified library (Verus). Pricing and exact nano-dollar cost,
  aggregation of log entries into a snapshot (`collect::Collector`, with a
  hash index of the message ids already counted in `seen`), the
  rolling windows and calendar bounds, the sorted breakdowns, the current
  session, the settings and plan arithmetic, the amount editor, the text
  forms of counts and times, and the state machine of the screens
  (`app::App`). Laws such as "the breakdown rows add up to the total" and
  "a replayed message is counted once" are proof functions there.
- `tests/` — tests of the library on concrete values.
- `app/` — the program around it: terminal input and drawing, reading the
  log files and the settings file, the worker thread, and the HTTP request
  for the live quota.

## Running

The data directory is taken from `CLAUDE_CONFIG_DIR`. Settings are stored in
`<config dir>/usage-monitor/config.json`; on first run they are seeded from
`CLAUDE_PLAN`, `CLAUDE_PLAN_COST_USD`, `CLAUDE_5H_LIMIT_USD` and
`CLAUDE_WEEK_LIMIT_USD`. On macOS the credentials are read from the Keychain
service named by `USAGE_MONITOR_KEYCHAIN_SERVICE` when it is set, and
otherwise from `.credentials.json` in the data directory.
