# VaultNote server

A notes service: gRPC for the calls, HTTP for the probes, Postgres for storage, Redis for the
cached list of notes.

- `src/` is the library. It holds the rules of the service, verified with Verus: what a request
  has to look like, what is stored, what is cached, and what is replied. It does no I/O. Calls
  that alternate between rules and I/O are step by step: each step says what to do next, and is
  told how it went.
- `app/` is the server around it: sockets, the database, the cache, the environment.
- `tests/` runs the library over a database and a cache in memory.

| Module | What it holds |
| --- | --- |
| `create`, `list`, `search`, `upload`, `ask`, `ping` | the gRPC calls |
| `store` | laws on whole runs of `CreateNote` and `ListNotes` |
| `cache` | the text under which the list of notes is cached, and how it is read back |
| `note`, `time`, `ids`, `status` | rows, notes, timestamps, UUIDs, statuses |
| `http` | the replies of `/health` and `/ready` |
| `config`, `server` | settings, and how a run of the servers ends |
| `text`, `hex` | trimming, substring search, numerals, tokens |

What is trusted: `String::push`, `Uuid::to_string`, `Uuid::parse_str`, `DateTime::timestamp` and
`DateTime::timestamp_subsec_nanos`. Each has a doc comment that says what its contract claims.
