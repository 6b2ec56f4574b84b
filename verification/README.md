# nuts_tunnel

A reverse tunnel for exposing local services through a proxy in the cloud, with its
decisions verified by Verus.

The client dials the proxy over a WebSocket and registers its services. A request
reaches a service in one of two ways:

- by host: `app.your-domain.com/path` goes to the service `app` as `/path`, if a
  tunnel has registered `app`;
- by path: any other request goes to the service that its first path segment names,
  so `/app/path` goes to `app` as `/path`.

## Layout

- `src/` is the verified library.
  - `message`: the messages of the protocol; `body`: bodies inside JSON text.
  - `service`, `config`, `text`: command line, config file and environment.
  - `backoff`: when the client dials again. After an orderly close it does so at
    once; after failures it waits, twice as long each time, for a minute at most.
  - `client`: the client's end of a tunnel.
  - `registry`, `session`, `tunnel`, `reply`: the proxy's end: routes, the life of
    a tunnel, the requests on their way, and what callers are answered.
  - `web`: methods, status codes and headers; `table`: the proxy's tables.
  - `laws`: what holds of the tunnel as a whole; `exchange`: what holds of many
    requests on one tunnel.
- `app/` holds the two programs: sockets, HTTP, JSON, TOML and the command line.
- `tests/` runs the library.

What is believed without proof of other crates stands in `table` (`dashmap`), `web`
(`http`, by way of `axum` and `reqwest`), `body` (`base64`) and `tunnel` (`uuid`). Each
such function says in its comment which call it makes and what is claimed of it.
