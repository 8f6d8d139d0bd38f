# crypto_dashboard

A cryptocurrency market dashboard server. The library in `src/` holds its
logic, verified with Verus; `app/main.rs` is the HTTP server around it (axum,
reqwest, tokio, files, environment).

- `config` — the market-data API root (`COINGECKO_BASE_URL`) split into scheme,
  host and base path; request URLs; the other settings (port, API key header,
  allowed origin, snapshot path, static directory).
- `json` — JSON documents with their mathematical view, member lookup and
  assignment.
- `cache` — upstream answers cached until their expiry time.
- `fetch` — the decisions of one upstream fetch: serve from the cache or go
  upstream, and cache what comes back.
- `routes` — what each endpoint asks upstream for and what it answers.
- `bootstrap` — the bootstrap endpoint as a state machine: stored snapshot,
  live fetch, fallback.
- `snapshot` — the steps that store the bootstrap snapshot safely.
- `clock` — wall-clock milliseconds since the Unix epoch.
- `text` — character-level string helpers.
