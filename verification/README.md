# tuskar

A TUS 1.0.0 resumable-upload server with a management dashboard, post-upload
processing, webhooks and per-context namespaces.

## Layout

- `src/` — the library, verified with Verus. It holds the server's decisions
  as functions from plain values to plain values, each with a contract:
  - `protocol`, `range`, `concat`, `metadata`, `status`, `lifecycle`, `upload`
    — the TUS requests, their headers, the upload state machine, quotas,
    expiry and downloads;
  - `filename`, `storage`, `s3` — stored file names, paths, checksums, and the
    choices of the S3 backend;
  - `context`, `context_admin`, `session`, `sso`, `accounts`, `throttle`, `net`
    — API keys, contexts, sessions, single sign-on, users, login throttling and
    client addresses;
  - `webhook`, `processing`, `config`, `settings`, `dashboard`, `web`,
    `maintenance` — webhook validation and delivery, the processing pipeline,
    configuration, the dashboard's answers and the HTTP layers' choices;
  - `text`, `codec` — text helpers and the wrappers around the encoding and
    hashing crates.

  Calls into outside crates stand behind small trusted wrappers whose
  contracts say what the crate's documentation promises, or name the result.
  Laws that span several functions are public proof functions next to the
  functions they speak of.
- `app/` — the server around the library: HTTP routing and handlers (axum),
  the SQLite database (sqlx), file and S3 I/O, OpenID Connect, metrics, the
  webhook dispatcher and the background workers.
- `tests/` — tests of the library on concrete values.
