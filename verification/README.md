# examplehttp

A small HTTP/1.1 server library, verified with Verus.

- `src/` is the verified library: reading a request head incrementally and
  parsing it with `httparse` (`reader`, `request`, `raw`), rendering a
  handler's response as a `200 OK` message with an exact `Content-Length`
  (`response`, `decimal`), the per-connection exchange (`connection`), and the
  server's configuration and handler slot (`config`, `server`).
- `app/` is the tokio networking around it, and serde-enabled copies of the
  message types.
