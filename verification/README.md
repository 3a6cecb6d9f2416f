# sdrive_backend

The verified core of the SDRIVE backend, an HTTP service in front of Google
Drive that keeps per-user records (primary drive marker, secondary drives,
logical folders) as files in the Drive appData folder.

- `src/` is the library, verified with Verus: bearer-token authorization and
  the token table, client key files, appData file naming and its read-back,
  Drive request URLs and bodies, the reshaping of Drive answers, the JSON text
  of a value (string literals are written by serde_json), the CORS policy, the upload form, logger settings and trace
  identifiers. The `*_laws` modules prove what reading a file name back gives
  of what was written into it.
- `app/` is the service around it: configuration from the environment, the
  axum routes, HTTP calls with reqwest, the scheduler and file loading.
- `tests/` runs the library with the real outside crates linked.
