# router

A small HTTP endpoint router, verified with Verus.

- `src/` is the verified library:
  - `attrs` parses the argument list of an endpoint declaration
    (`idempotent, auth = handler`), with a law on what a list of
    `key` / `key = value` groups declares and a law that `=` marks are
    optional;
  - `routing` decides where a request goes (page, endpoint, 404) and builds
    the router's own responses;
  - `assets` is the table of static files served on `GET`;
  - `body` holds response payloads; `json` the wire format of endpoint data;
  - `codegen` holds the generators' decisions: where an endpoint's value
    type is, and whether a router declaration is accepted;
  - `naming` derives the names that endpoint declarations generate;
  - `fetch` is the client side: how a request is made and the state of its
    answer;
  - `add_app` and `sum_app` are two applications with one endpoint each;
  - `text` holds string helpers (quote stripping, decimal notation).
- `app/` is the server program (tokio, hyper), the endpoint traits, the
  browser-side fetch, and the code generators over `proc_macro2` tokens.
- `tests/` runs the library on concrete inputs.
