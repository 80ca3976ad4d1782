# context_server

A client for servers that speak the Model Context Protocol: JSON-RPC messages over
a transport of the caller's choice.

- `src/` decides. `client` is the state of one connection and what each event
  makes of it; `messages` and `json` write what is sent; `subscriptions` and
  `request_handlers` know who handles what; `context_server` is a server as it is
  configured. `client_laws`, `message_laws` and `run_laws` prove what holds across
  them.
- `app/` acts. It reads and sends through a transport, runs the tasks and timers,
  and calls the handlers that `src/` knows by number.
- `tests/` runs `src/` on concrete messages.
