# phenotype_event_bus

An event bus with a durable outbox: events are published into an outbox,
workers claim them under a lease, deliver them to a handler, and acknowledge
them or record the failure; failures are retried with a bounded exponential
back-off until the retry budget is spent, after which the event is parked in
a dead-letter queue that operators can replay or prune.

- `src/` is the verified library (Verus):
  - `envelope` — the event envelope and its validation rules;
  - `outbox` — an in-memory model of the outbox table and handled-event
    log: what each store statement does, as a verified operation, and the
    laws of claims (including two workers racing for one event), leases,
    retries, replays and pruning;
  - `delivery` — back-off, retry budget, leases, contention retries;
  - `bus` — an in-process bus over the outbox, the worker's poll decision and
    the metric bookkeeping of every step, with the proof that the queue
    gauges track the outbox;
  - `observability` — counters, gauges, the registry and its snapshot;
  - `brokers` — the NATS and Redis Streams adapters.
- `app/` holds the I/O: the SQLite-backed bus (sqlx, tokio), tracing and
  OTLP setup, the asynchronous broker trait and the serde form of the
  envelope. Its SQL statements are written by hand as the store's side of
  the `outbox` operations; validation, back-off, retry budget, leases,
  contention retries, the worker's decisions and the metric bookkeeping
  around them are calls into the library.
- `tests/` exercises the library.
