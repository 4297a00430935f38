# jellyfin_exporter

A Prometheus exporter for the Jellyfin media server, with its decision logic
verified by Verus.

## Layout

- `src/` — the verified library:
  - `circuit_breaker.rs` — the breaker's state machine over a nanosecond clock,
    with its laws (opens at the threshold, refuses until the reset timeout,
    half-open probe, success resets the count).
  - `retry.rs` — the retry budget and the jittered exponential backoff.
  - `config.rs` — validation of the environment variables into a `Config`,
    error texts and the redacted debug rendering.
  - `labels.rs` — label sanitization (trim, collapse, truncate, lowercase).
  - `text.rs` — decimal rendering and parsing, string equality and prefixes.
  - `client.rs` — the API reply types, request paths and error texts.
  - `collector.rs` — the metric updates a collection cycle plans from the
    fetch outcomes, and the collector's breaker bookkeeping.
  - `registry.rs` — a model of the metrics registry and the laws of a cycle
    (aggregates, idle sessions, stale metrics while unreachable or while the
    circuit is open, rebuilt series, hidden remote addresses, label arity),
    and the metrics' names and label names.
  - `auth.rs` — bearer-token authorization of `/metrics` and the readiness reply.
- `app/` — the program around it: environment, HTTP client and decoding,
  the Prometheus registry, the async collection loop and the HTTP server.
- `tests/` — tests of the library on concrete values.
