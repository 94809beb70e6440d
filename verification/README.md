# metapak

A package-manager front end: search, install and remove packages across
pacman and the AUR, apt, Homebrew, Scoop, npm, Cargo and PyPI.

- `src/` is the library, verified with Verus: the parsers of each tool's
  output, the query language, result merging and ordering, the search cache,
  transaction and rollback planning, the argument sanitising of the AUR
  helper commands, each step of the AUR search (the circuit breaker, the
  retries and the errors), the settings of the HTTP clients, the password
  buffer and the path checks. Search results are merged, ordered by name and
  capped; they are not ranked by relevance. Calls into `regex`, `urlencoding`, `secrecy`,
  `reqwest` and std's clocks go through small trusted items whose contracts
  say what those crates document.
- `app/` is the runtime around it: it runs the commands, sends the HTTP
  requests (serde reads the JSON), sleeps between retries, reads `/etc`, the
  pacman log and the system, and calls the library with what it got.
- `tests/` exercise the library on concrete inputs.
