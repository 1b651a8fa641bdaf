# simple_gateway

The core of a small HTTP API gateway, written in Verus and verified.

`src/` is the library:

- `service_registry` — backend instances per service and load balancing
  (round robin, random, least connections), with laws on the round-robin
  rotation and on instances taken out of service.
- `consul_discovery` — turning Consul health entries into registry instances.
- `auth` — the user store (bcrypt), issuing and checking JSON Web Tokens.
- `rate_limiter` — the per-client request gate (governor) and client keys.
- `message_queue` — the FIFO event queue and the worker's plan per event.
- `cache` — a response cache with per-entry expiry.
- `logging` — how a finished request is classified for the log.
- `gateway` — login, bearer-token checks and the users listing around them.
- `clock` — the wall clock as the library reads it.

Calls into bcrypt, jsonwebtoken, chrono, rand and governor go through small
trusted wrappers whose contracts are documented beside them.

`app/main.rs` is the server: axum routing and middleware, Consul polling over
HTTP, the background worker loop and Prometheus metrics. It signs and checks
tokens with the key in the `JWT_SECRET` environment variable, or the
development default `your-secret-key` when it is unset, and builds the user
store once at start.
