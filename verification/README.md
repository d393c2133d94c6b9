# wrappr

The supervisor of a decryption worker: it serves a small HTTP API for account and
playback control and a raw TCP port for sample decryption, and keeps both up while
it starts and discards the worker process behind them.

- `src/` is the library: what requests, frames and outcomes mean and what they are
  answered with, with contracts that Verus proves.
  - `batch`, `decrypt`, `wire`: the decrypt protocol, its frames and payloads.
  - `http`, `routes`, `query`: requests and responses, and what each request asks for.
  - `health`, `worker`, `apple`: what probes, worker answers and relayed requests
    are answered with.
  - `json`, `text`, `decimal`, `config`, `error`: what these are made of.
- `app/` is the daemon around it: listeners, the worker process and `curl`. It also
  decides what is said of the worker itself: when it is started and discarded, which
  of its frames count as an answer, and what the supervisor's snapshot of it reports.
- `tests/` runs the library on concrete values.

JSON text is read and written by `serde_json`, request heads are parsed by
`httparse`; the functions marked `external_body` call them and say what is taken
for granted of each.

`GET /health` answers with `status`, `version` and `runtime`. The last is what the
running worker reported when it was last asked for its health or the account, or null
where it has not been asked yet; only `?deep=1` asks it anew. `POST /license` asks for
PlayReady unless `drm-type` says `wv`.
