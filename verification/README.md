# rlwy

A small command-line client that watches Railway deployments.

- `src/` — the verified library (Verus). The GraphQL data model
  (`model`), locating services and their environments (`context`), the
  table cells and text shortening (`deployments`, `env`, `list`), the
  rollback choice (`rollback`), the health summary (`status`), version
  ordering and release assets (`semver`, `upgrade`), the follow loop and
  service picker decisions (`watch`), reply handling (`api`), token lookup
  (`config`), highlights (`ui`), and the character-level text operations
  everything above is built on (`text`, `search`).
- `app/` — the program: argument parsing, HTTP, files, prompts, colours,
  progress bars and tables.
- `tests/` — tests of the library on concrete values.
