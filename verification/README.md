# webspec-fetch

Keeps an index of web specifications in step with their live pages, and indexes
previews of pull requests beside their merge bases.

The library in `src/` is verified with Verus. It performs no I/O. A run (a sync, a
preview, a live fetch, the resolution of a pull request) is a value that says
which command or request comes next, and goes on with the answer; its contract
states every step, and `sync_laws.rs` and `preview_laws.rs` state what holds of
whole runs.

- `text`, `encode`, `digest`, `time`: texts, numbers, hashes and instants
- `model`, `merge`: what the parser extracts, and merging pages
- `live`, `github`, `tc39`, `pr`: pages, API responses, and pull requests
- `protocol`, `sync`, `update`, `preview`: the runs

`app/` drives the runs: it holds the HTTP requests, the direct SQL queries and the
clock, and takes the database layer and the parser through its `Backend` trait.
