# mcp_config

Verified management of the MCP server presets of a Codex configuration.

- `src/preset.rs`: a preset (label, URL, enabled) and its mathematical view.
- `src/config.rs`: the presets part of `config.toml` and the four operations on
  it (add or update, remove, enable or disable, list), each with a contract that
  fixes its result over the view, and the error for an unknown label.
- `src/table.rs`: the text table that a listing prints, column widths included.
- `src/laws.rs`: properties that relate the operations (a lookup after an add
  finds what was written, an add of a new label is undone by a remove, labels
  stay unique, a later status setting wins, the table's columns line up).
- `app/`: the `config mcp` command line, which reads and writes `config.toml`
  with `toml` and hands the presets to the library.
