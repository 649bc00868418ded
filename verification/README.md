# wg-conf

Hands out WireGuard addresses to clients that register their public key
with a server.

- `src/` is the library, verified with Verus: the INI model of the
  configuration files, key derivation, address assignment, the
  registration rules, the `authorization` header and the hook outcomes.
- `app/` is the program around it: the command line, file I/O, gRPC
  client and server, and running the hook and credential scripts.
- `tests/` runs the library on concrete values.
