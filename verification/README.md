# rate_limit

A sliding-window rate limiter for an HTTP API, written in Rust and verified with
Verus.

Clients are told apart by their address or their credential. Reads, writes and
the reading of a contract's ABI are counted apart; writes are counted over an
hour, all else over the configured window. Health probes, the metrics endpoint
and admin paths are never limited, and neither are trusted clients, whose
requests are audited instead.

| Directory | What it holds |
|-----------|---------------|
| `src/`    | the limiter: every function carries a contract, and the modules `laws`, `bucket_laws` and `table_laws` state what holds across functions |
| `tests/`  | tests on concrete values |
| `app/`    | the axum middleware around the limiter: the environment, the clock, address parsing, logging |

## Settings

| Variable | Meaning | Default |
|----------|---------|---------|
| `RATE_LIMIT_IP_PER_MINUTE`, else `RATE_LIMIT_ANON_PER_MINUTE` | reads per window and address | 1000 |
| `RATE_LIMIT_API_KEY_PER_MINUTE`, else `RATE_LIMIT_AUTH_PER_MINUTE` | reads per window and credential, where it is above that of the tier | 1000 |
| `RATE_LIMIT_WRITE_ANON_PER_HOUR` | writes per hour and address | 100 |
| `RATE_LIMIT_WRITE_AUTH_PER_HOUR` | writes per hour and credential | 300 |
| `RATE_LIMIT_WINDOW_SECONDS` | length of the window | 60 |
| `ENTERPRISE_RATE_LIMIT_PER_HOUR`, else `ENTERPRISE_RATE_LIMIT_PER_WINDOW` | reads per window on the enterprise tier | 100000 |
| `RATE_LIMIT_API_KEY_LIMITS` | entries `key=limit`, separated by commas | |
| `RATE_LIMIT_TRUSTED_IPS` | addresses that are never limited, separated by commas | |
| `RATE_LIMIT_TRUSTED_API_KEYS` | API keys that are never limited, separated by commas | |
