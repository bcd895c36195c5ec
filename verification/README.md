# russh_rules

Verified decision logic of an SSH session test bench, written with Verus.

- `src/forwarding.rs`: which channels a client accepts when the server opens
  them (never session or direct-tcpip, forwarded-tcpip only for a granted and
  not cancelled forward, X11 only after X11 forwarding was granted), the port
  that a granted tcpip-forward request reports, and the laws that tie
  granting, cancelling and accepting together.
- `src/handlers.rs`: the handlers that the bench plugs into its test server
  and client (echoing, numbering clients, handing out one-shot waiters,
  recording forwarding requests).
- `src/registry.rs`: the table from (client number, channel) to session
  handle that the echoing server fills.
- `src/keyed.rs`: lists whose elements have unique keys, the set of keys
  they stand for, and how appending and removing change it.
- `src/tally.rs`: the count of data bytes that the window-size check waits for.

The network plumbing that drives these decisions (sockets, the async
runtime, key generation) is not part of this crate.
