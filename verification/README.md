# reconnecting-jsonrpsee-ws-client

A JSON-RPC WebSocket client over `jsonrpsee` that reconnects under the hood:
calls that were pending when the connection went down are transmitted again, and
open subscriptions are established again. Notifications that the server sends
while the connection is down are lost.

- `src/` is the library: the logic of the client, verified with Verus. It never
  waits. Whoever drives it performs what it asks for and hands the outcome in.
  - `client`: handing operations to the background task and taking the answer.
  - `dispatch`: what goes out for one operation, and what comes of the reply.
  - `subscription`: forwarding the notifications of one subscription.
  - `background`: the background task, one event at a time.
  - `reconnect`: setting up the connection anew, step by step.
  - `session`: what holds of a client, its background task and its handlers over
    any run.
  - `counter`: the count of reconnects, which all clients share.
  - `channel`: the outside types, and tokio's channels with a record of what was
    sent through them.
- `app/` drives the library with tokio, `jsonrpsee` and `tokio-retry`: it
  connects, transmits, waits and applies the retry policy.
- `tests/` runs the library.
