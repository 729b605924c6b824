# FerroTunnel

A reverse tunnel. A client behind a firewall connects to a server; the server takes HTTP,
HTTP/3 and TCP traffic from the outside and passes it through that one connection to a service
next to the client.

`src/` is the library, verified with Verus:

| Modules | What they hold |
|---------|----------------|
| `frame`, `validation`, `wire`, `codec` | the wire protocol |
| `multiplexer`, `virtual_stream`, `quic_multiplexer`, `batched_sender`, `rate_limited` | streams over one connection |
| `session`, `sharded`, `handshake`, `auth`, `tunnel_server`, `rate_limit`, `resource_limits`, `limits` | the server's sessions |
| `transport`, `reconnect`, `accept_backoff` | connections |
| `http`, `ingress`, `http3_ingress`, `tcp_ingress`, `pool`, `plugin` | the way in and the way to the local service |
| `dashboard`, `capture`, `metrics` | what operators see |
| `config`, `tunnel_config`, `client`, `server`, `cli_client`, `cli_server` | configuration, embedding and the command line |

Public proof functions whose names start with `law_` state what holds of several functions
together.

`app/` is the program around the library: sockets, TLS, the HTTP stacks, the terminal and the
command line. `tests/` holds the library's tests.
