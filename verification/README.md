# ws_proxy

A WebSocket proxy client: local SOCKS5 and HTTP proxy listeners whose
connections are carried, multiplexed with yamux, over a TLS WebSocket tunnel
(optionally with Encrypted Client Hello and a CDN address in front of the
server).

- `src/` is the library, verified with Verus: the SOCKS5 handshake steps,
  HTTP request-line, URL and header parsing, the tunnel's CONNECT protocol,
  the byte-stream view of WebSocket messages, DNS-over-HTTPS answers, the
  tunnel and client configuration, and the TLS configuration builder. Calls
  into `url`, `base64`, `rustls`, `rustls-pki-types` and `webpki-roots` stand
  behind small trusted wrappers whose contracts are stated in their doc
  comments.
- `app/` is the program around it: command line, configuration file, the
  network listeners, DoH over HTTPS, TLS and WebSocket connections, and the
  yamux session.
- `tests/` runs the library on concrete inputs.
