# tokencamp

An OpenAI-compatible LLM API gateway whose decision logic is a verified
library.

- `src/` — the library, proved with Verus: provider request and response
  conversion (OpenAI, Anthropic), server-sent-event framing and stream
  reassembly, the routing strategies, deployment selection with cooldowns
  and fallbacks, retry and backoff decisions, the two-level cache, per-key
  rate limiting, spend records, response caching, API key issuing and
  checking, credential encryption, configuration placeholders, error
  answers and the Prometheus exposition.
- `tests/` — tests of the library on concrete values.
- `app/` — the server around it: HTTP routes (axum), calls to providers
  (reqwest), PostgreSQL (sqlx), the Redis backend of the shared cache
  (redis), configuration loading (serde), and the command-line tool.

Calls into other crates (SHA-256, hexadecimal text, AES-256-GCM, the LRU
cache, JSON field reading, random numbers, the clock) sit behind small
trusted wrappers whose contracts state what those crates document.
