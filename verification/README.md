# multiway

A Kubernetes Gateway API controller and an HTTP reverse proxy, with its logic
verified by Verus.

- `src/` is the verified library. It holds the configuration, routing and
  filters, the request pipeline (load balancing, forwarding, WebSocket upgrades,
  sessions), TLS certificates, the workers of the server, and the decisions of
  the controller.
- `app/` is what runs around it: sockets, TLS handshakes, JSON, the Kubernetes
  API and the command line.
- `tests/` holds the tests of the library.

Work that waits for the outside is written as a state machine: a `step_`
function takes the state and what has happened, and returns the next state and
what to do. `app/` does it.

The `law_` functions state what holds across functions. Functions marked
`external_body`, and the names that they define, state what is believed of other
crates; each says which function of which crate it calls.
