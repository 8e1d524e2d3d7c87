# solana-gun-quic-client

The core of a Rust client for the Solana Gun QUIC transaction-submission ingress:
token-authenticated, standard TLS (WebPKI), fire-and-forget. The core is verified with
[Verus](https://github.com/verus-lang/verus).

- `src/` decides and computes, and performs no I/O: settings and what makes them acceptable,
  endpoints as text, the token handshake, which failures end a reconnect, backoff, trust
  anchors and TLS, discovery responses, the judging of probes, and the course of an automatic
  connect. Every function states what it returns, and the public proof functions named `law_…`
  state what holds of the whole.
- `app/` performs the I/O: sockets, DNS, HTTPS, timers and locks. It hands every outcome to the
  library as a plain value and does what the library says.
- `tests/` runs the library on concrete values.

What the library has from other crates stands in `src/tls.rs` and `src/endpoint.rs`, behind
functions whose contracts are taken on trust: trust anchors and TLS configuration from rustls,
transport configuration from quinn.
