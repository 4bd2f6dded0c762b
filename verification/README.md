# soketto

An implementation of the RFC 6455 websocket protocol whose logic is proved
with Verus: frame codecs, the handshake checks of both sides, extension
negotiation (including per-message deflate), and the decisions a connection
and its protocol layers make on the frames they receive.

Layout:

- `src/` is the verified library. Each public function states in its
  contract what it returns or changes; the laws that relate several
  functions (encoding then decoding gives the frame back, fragments come
  out as one message, a closed connection stays closed, the response a
  server builds for a key passes the check of a client with that key, and
  others) are public proof functions next to the code they speak of.
  The calls into `bytes`, `httparse`, `sha1`, `base64`, `flate2` and
  `vatfluid` go through small trusted items whose contracts say what those
  crates do.
- `app/` is ordinary Rust around the library: the server's handshake and a
  connection over a blocking byte stream.
- `tests/` runs the library on concrete values.
