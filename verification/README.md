# kafka_dashboard

A real-time Kafka topic monitoring dashboard: an HTTP and WebSocket server
that lists a cluster's topics, streams each topic to its browser panels,
seeks a topic by timestamp and lets the broker list change at runtime.

The crate is written in Verus.

- `src/` is the verified library:
  - `config` — the configuration from arguments and environment, and the
    validation of configurations, broker lists and topic names, each with the
    exact error it reports;
  - `text` — trimming, splitting, prefix tests, ordering and decimal text;
  - `kafka` — the properties of the admin, topic and seek consumers;
  - `topics` — the topic list (internal topics left out, sorted);
  - `registry` — the live channel of each topic. It keeps a list of
    entries with distinct keys rather than a `HashMap`: vstd's specification
    of `HashMap` proves nothing useful with `String` keys, so the map is a
    verified structure of its own;
  - `models`, `error` — the API's values and errors;
  - `seek`, `consumer`, `session` — the decisions of a seek, of a topic's
    live consumer and of a WebSocket session;
  - `order` — the proof that code-point order is UTF-8 byte order.
- `app/` is the server around it: command line, environment, actix-web
  routes, the WebSocket loop and the Kafka network calls.
- `tests/` runs the library on concrete values.
