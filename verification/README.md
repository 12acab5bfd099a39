# telemetry_server

A websocket telemetry server: producers send readings to `/injest/{key}`,
which are stored in a time-series database and pushed live to the browser
clients connected to `/realtime/{key}`.

- `src/` is the verified library (Verus): the subscriber registry
  (`registry`), the decisions of a websocket session and the live update
  messages (`session`), the database line-protocol record, range-query text
  and answer decoding (`database`), and decimal rendering (`text`).
- `app/` is the actix server around it: HTTP routes, websocket actors, the
  database connection and the clock.
- `tests/` exercises the library on concrete values.
