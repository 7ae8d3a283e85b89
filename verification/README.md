# proxy_server

An HTTP proxy with a rate limit, connection pooling and streaming, whose decisions are
verified with Verus.

- `src/limiter.rs`: the token bucket.
- `src/pool.rs`: connections for each host, up to a limit, and their reuse.
- `src/server.rs`: routes, and a request from its arrival to its answer.
- `src/history.rs`: what a server's counters say of its history.
- `src/stream.rs`: a response that is handed on chunk by chunk.
- `src/future.rs`: futures that wait for a token.
- `src/metrics.rs`: the Prometheus page.
- `src/endpoint.rs`: what the HTTP front end answers.
- `src/upstream.rs`: the calls into `reqwest` and `url`.
- `src/table.rs`: a table from text to values.
- `src/error.rs`: what can go wrong.

The library holds no locks, reads no clock and sends nothing. `app/` does that: it shares a
server among tasks, measures time, talks to targets, and runs the demo or, with the argument
`http`, the HTTP server on port 3000. How many tokens fall due in a stretch of time is a
floating-point quotient, which `app/` computes and hands in.

A request that ends in an error counts as failed. If it had been forwarded, its connection is
closed and makes room for another one.
