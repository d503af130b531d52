# httparena_reinhardt

The request handling of the HttpArena benchmark entries built on Reinhardt,
as a Verus library with proved contracts, and a server around it.

- `src/` — the library, verified with Verus:
  - `strings`: decimal integers as text (`i64`/`u64` parsing and display),
    white-space trimming, splitting, UTF-8 request bodies;
  - `request`, `response`: query parameters, request bodies and responses;
  - `views`: plain-text, upload, JSON dataset and static file endpoints;
  - `crud`: the database-backed endpoints as step functions from events to
    actions, and the fortunes page;
  - `fortunes`, `html`: stable ordering of fortunes by message bytes,
    HTML escaping and the page itself;
  - `static_files`: which paths stay inside the static directory, and
    content types by extension;
  - `services`: the shared state, the item cache and the start-up slot;
  - `urls`, `grpc_urls`, `ws_urls`: endpoints, path matching and routers;
  - `dispatch`: the endpoint a request is for, with its path parameters read;
  - `grpc`, `websocket`, `compression`, `config`, `models`.
- `tests/` — tests of the library.
- `app/` — the server: listeners, TLS, JSON encoding and decoding, file
  reads, and the loop that runs the step functions.

## What the server in app/ does not do

The database (Reinhardt's ORM over PostgreSQL), the gzip and brotli
compression middleware, dependency injection, and the gRPC and WebSocket
transports come from the Reinhardt framework and tonic, which this build
does not link:

- every database operation reports that there is no connection, so the
  database endpoints answer `503` (the `/async-db` endpoint with an empty
  JSON payload);
- the response encoding is negotiated (`compression::negotiate_compression`)
  but bodies are sent uncompressed;
- there is no gRPC and no WebSocket server; their handlers are in
  `src/grpc.rs` and `src/websocket.rs`;
- TLS uses rustls with the `ring` provider.
