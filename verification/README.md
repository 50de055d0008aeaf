# xrpl_packet_interceptor

The packet interceptor starts XRPL validator nodes in Docker containers,
connects them to each other through itself, and asks a controller, over gRPC,
what to do with every message that one node sends to another.

- `src/` is the verified library (Verus): framing of intercepted messages,
  what the controller's action means for delivery, which nodes are connected,
  the peer handshake request and the check of its answer, the validator
  configuration files, container names and paths, the request checks and the
  execution log format.
- `app/` is the program around it: sockets and TLS, Docker, gRPC, files and
  the tasks that run the message loops.
- `tests/` runs the library on concrete values.
