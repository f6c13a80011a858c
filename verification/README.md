# hello_faas

A small functions-as-a-service gateway. Functions are uploaded as binaries,
run in containers, and invoked through `/invoke/<function-id>/...`.

- `src/` is the verified library (Verus): request routing and the upstream
  address (`invoke`), the deploy and invoke workflows as step functions that
  the server drives (`deploy`, `invoke`), error replies and the conversions
  into them (`reply`), container filters and plans (`containers`), text
  operations with their specifications (`text`), and the deploy tool's
  command line (`cli`).
- `app/` is the server and tools around it: HTTP handling (axum, hyper),
  the Docker and Postgres clients (shiplift, sqlx), the file system, the
  configuration file, and the upload tool (reqwest). Subcommands:
  `gateway` (default), `function`, `deploy <binary> [gateway-url]`, `migrate`.
- `tests/` exercises the library on concrete values.
