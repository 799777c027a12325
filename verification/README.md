# minos

Minos is an inline firewall for attack/defense CTFs: it sits in front of a
service, runs each request (HTTP) or burst (raw TCP) through a pipeline of
filters, forwards what passes and answers or closes what is blocked, and keeps
a versioned config history and a block log.

This crate is its decision logic, written in Verus with contracts and proved:

- `src/` — the verified library: packets and verdicts, the pipeline executor
  and its laws, the regex and HTTP filters, the HTTP/1.1 request reader and
  response/forwarding bytes, the sidecar frame format, request and verdict,
  the venv install steps, the `Storage` contract with an in-memory store, its
  conformance suite and the laws every store that meets the contract obeys,
  the SQL layout of the block log, and the config structure checks and
  commit/load. The SQLite store in `app/` is not verified against the
  `Storage` contract: it defines no model, so the contract and the laws
  promise nothing of it.
- `app/` — the runtime around it, not verified: serde forms of the types, the
  filter-kind registry, the SQLite store, the sidecar process and socket, the
  `uv` install, and the tokio listeners and handlers.
- `tests/` — tests of the library on concrete values.
