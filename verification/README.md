# progflow

A workspace manager: a *flow* bundles an editor command, background services
and URLs under a name, and `progflow on <name>` / `progflow off` start and stop
them together.

Layout:

- `src/` — the verified library: the flow configuration model and its rules
  (`config`), where flows live (`paths`), reading the flow directory
  (`listing`), the decisions and texts of each command (`commands/`), tips,
  platform command lines, the JSON reports of `status` and `list` (`json`),
  and the text primitives they rest on (`text`).
  Calls into `chrono`, `dirs` and `std` that the library makes stand behind
  small trusted wrappers (`clock`, `paths`, `json`, `text`, `commands/on`,
  `commands/aliases`).
- `app/` — the command-line program: argument parsing, JSON files, processes,
  signals, terminals and prompts, around the library.
- `tests/` — tests of the library on concrete values.
