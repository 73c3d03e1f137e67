# banker

A command-line client for Enable Banking: it signs in to banks, keeps the
sessions, and synchronises accounts, balances and transactions into a local
SQLite store.

Layout:

- `src/` is the library, written in Verus. It holds the logic with its
  contracts: configuration lookup, record identifiers, session bookkeeping,
  the merge of fetched transactions into the store, time frames, the text
  that the commands print, and the laws that tie these together. Calls into
  outside crates (chrono, sqids, xxhash, uuid, url, humantime, dirs,
  jsonschema, duration-str, jsonwebtoken, comfy-table) stand behind small
  trusted wrappers whose contracts say what the crates' sources promise.
- `app/` is the program around it: argument parsing, HTTP, the database,
  files, JSON-lines output and the command loop.
- `tests/` runs the library on concrete values.
