# lexwisp

The verified core of LexWisp, a floating AI chat and text-action client.
Every function in `src/` carries a `requires`/`ensures` contract that Verus
proves; the few calls into outside crates (`toml`, `url`, `uuid`, `semver`,
`serde_json`, `sha2`, `hex`) and into parts of `std` that vstd does not
specify sit behind small trusted wrappers whose contracts say what their
documentation promises.

## Layout

- `src/` — the library, one module per concern:
  - identifiers, plugin IDs and capabilities: `ids`, `plugin`, `actions`;
  - settings, providers and their registries: `settings`, `config`,
    `provider`, `provider_registry`, `provider_service`, `settings_service`;
  - chat: `chat` (context assembly, conversation state), `chat_state`,
    `chat_view`, `runs`, `completion`, `sse`, `endpoint`, `json_tree`;
  - executions and history: `execution`, `executions`, `favorites`,
    `backups`, `records`;
  - plugin packages: `paths`, `staging`, `package_hash`, `packages`,
    `toml_tree`, `declarative`, `script`, `registry`, `plugin_lifecycle`;
  - script plugins: `script_http`, `script_modules`, `script_engine`,
    `parameters`, `text_action`;
  - small pieces of the shell: `command`, `context`, `intents`, `builtin`,
    `attachments`, `text`.
- `tests/` — tests run against the compiled library.
- `app/` — `lexwisp-inspect`, a command-line tool that walks a plugin
  package directory and reports what the library decides about it.

Laws that span several functions are public proof functions next to the
functions they relate, for example `runs_stay_one_per_conversation`,
`dismiss_overrides_read_back`, `staging_stays_bounded` and
`engine_runs_one_per_plugin`.
