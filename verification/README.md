# star_escrow

The verified core of a command-line client for an escrow contract on Stellar.

- `src/` — the library, verified with Verus:
  - `text` — whitespace trimming, decimal numerals, decoding of CLI output;
  - `env_file` — `str::lines`-style line splitting and the `KEY=VALUE` upsert of `.env` files;
  - `invocation` — the `stellar` CLI argument lists and the contract calls of each command;
  - `json` — the JSON values the client reads, with `serde_json`'s parsing and printing;
  - `escrows` — selecting a payer's escrows from contract events, and the reports on them;
  - `deploy` — the deployment as a state machine (build, check, deploy, record the id).
- `app/` — the command line itself: argument parsing, running the CLI, files, printing.
- `tests/` — tests of the library on concrete values.
