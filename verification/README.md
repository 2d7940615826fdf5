# srp — secure reverse proxy

A client (`srp`) next to a private service opens a QUIC tunnel to a public
server (`srps`), asks it to expose the service at an address and port, and
relays the streams and datagrams that the server forwards.

- `src/` is the verified library:
  - `config.rs`: the configuration types, the handshake decisions of server
    and client (`ServerConfigResponse::for_request`, `resolve_request`,
    `into_result`) and the plan for an accepted tunnel;
  - `datagram.rs`: the `[id | payload]` framing of relayed UDP datagrams,
    built in a `bytes::BytesMut`;
  - `clients.rs`: the table that gives each UDP peer an id;
  - `relay.rs`: what each relay loop does on each signal, and the UDP relay
    state;
  - `healthcheck.rs`: the URLs of healthcheck pings.
- `app/` holds the two programs around it: config files, QUIC endpoints,
  TCP/UDP sockets, HTTP pings and the async loops that carry out the
  library's decisions.
- `tests/` runs the library on concrete values.
