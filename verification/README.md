# echomesh_relay

A DPI-resistant relay for the EchoMesh messenger: clients reach it through a
camouflaged TLS 1.3 ClientHello that carries a challenge-response proof of a
shared token, then speak fixed-size 1420-byte frames inside a Noise
`NK_25519_ChaChaPoly_BLAKE2s` session; the relay routes frames between
registered peers and hands every unauthenticated connection to a disguise
site.

The library (`src/`) is verified with Verus. Its contracts state:

- the wire formats — frames, envelopes, client and server messages, Base64,
  hexadecimal, the relay's key and token files — and that each decoder gives
  back what its encoder wrote;
- the pseudo-TLS parser (fragmented records included), the cover proof that
  the builder puts into a hello and that the validator checks;
- every decision the relay takes on a connection (camouflage check, fallback,
  direct Noise session) and on a frame (route registration, delivery,
  acknowledgements, heartbeats, the echo service), over an explicit model of
  the route, connection and session tables that includes the outbound
  channel each route and connection is reached by;
- that no log rendering shows a token, key, session id or message payload.

Calls into `snow`, `hmac`/`sha2`, `rand` and `tokio`'s channels stand behind
small trusted wrappers whose contracts say what those crates document.

`app/` is the daemon around the library: sockets, timeouts, files, the Tokio
runtime and logging. `tests/` exercises the library on concrete values.
