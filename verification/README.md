# buzz-import

One-time importer that migrates the open Jira backlog into Buzz: open items
only, one-way, idempotent, resumable.

## Layout

- `src/` — the verified library (Verus).
  - `transform` — Jira issue -> item payloads: root body, root tags
    (`h` channel, `jira:<KEY>`, `type:`, `region:`, `orig-created:`, `epic:`,
    `label:`, `p` for a mapped assignee), consolidated history reply,
    attachment references, seed state.
  - `emit` — event signing (nostr), NIP-98 authorization headers, the dedup
    filter, reply tags, and the decisions taken on relay responses.
  - `ledger` — line splitting of the JSONL ledger and last-write-wins
    resolution by Jira key; the `Done` row recorded after an emit.
  - `identity`, `status_map` — the accountId -> pubkey and status -> state maps.
  - `config`, `error`, `jira`, `verify`, `text` — settings and defaults, error
    kinds and exit codes, the issue shape, the verify stage, string helpers.
- `app/` — the program: command line, file and network I/O, serde formats.
- `tests/` — tests of the library on concrete values.

## Usage

```bash
buzz-import --config buzz-import.json dry-run   # mandatory first pass
buzz-import --config buzz-import.json run
buzz-import --config buzz-import.json verify
```

`JIRA_BASE_URL` and `BUZZ_PRIVATE_KEY` (the import key) are read from the
environment.
