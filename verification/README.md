# grat_core

The verified core of Grat, a toolkit that explains failed Soroban
transactions: it decodes contract values, events and operation results,
finds the deepest error in a cascade of diagnostic events, analyses fees and
resource usage, prepares and reads back the replay of a transaction in the
Soroban host, lints the error taxonomy, and renders Markdown for the
terminal.

## Layout

- `src/` — the library, written in Verus. Every function carries a contract
  stated over mathematical models (`Seq`, `Map`, spec functions and views)
  and is proved against it. Calls into outside crates (`stellar-xdr`,
  `stellar-strkey`, `sha2`, `base64`, `url`, `owo-colors`, `unicode-width`,
  `crossterm`, `directories`, `pulldown-cmark`) go through small trusted
  wrappers whose contracts say what the crates' sources show. The
  transaction envelope read for replay and the Markdown parse are taken
  apart by several such wrappers, each reading one part, and put together
  by verified code. Transaction documents, diagnostic events and
  authorization entries are read from their base64 XDR in `xdr_decode`,
  whose results are named and taken further by verified code.
  - decoding: `scval`, `type_resolver`, `return_decoder`,
    `argument_decoder`, `function_call_decoder`, `operations`,
    `multi_op_decoder`, `auth_signature`, `strkey`
  - diagnostics: `events`, `deepest_error`, `event_walker`, `diagnostic`,
    `report`, `badges`
  - analysis: `fee_analyzer`, `resource_analyzer`
  - replay: `replay` (decisions and trace events), `ledger_state` (the
    ledger state a transaction is replayed against), `sandbox` (what the
    host is given and what its run yields), `key_map`
  - tools: `cache`, `config`, `linter`, `updater`, `commands`
  - terminal: `markdown` (the event model and the meaning of rendering),
    `markdown_parse` (the parse into that model), `markdown_render` (the
    renderer), `theme` (the message palette)
  - support: `error`, `text`, `json`, `xdr_decode`
- `app/` — ordinary Rust around the library: JSON conversion, file system
  and cache I/O, network round trips, the run of the Soroban host
  (`soroban-env-host`) with its trace hook, the process-wide color switch,
  and floating-point percentages.
- `tests/` — tests run against the compiled library.
