# CC Switch

The part of CC Switch that decides, with its contracts proved by Verus:

- `auto_launch`: starting with the operating system.
- `cursor_config`, `mcp_cursor`: Cursor's configuration files, its login token,
  and MCP servers between the shared configuration and Cursor.
- `cursor_models`, `cursor_events`, `cursor_sync`: importing billed usage from
  the Cursor dashboard.
- `usage_cells`, `hermes_usage`, `hermes_import`, `hermes_sync`: importing usage
  from the state database of Hermes.
- `text`, `numeral`, `binary64`, `money`, `str_map`, `json`, `location`, `error`,
  `sync_result`, `request_log`: what these are made of.
- `outside`: what is relied on from other crates without proof.

`src/` is the library. `app/` holds the files, databases, network calls and
system services around it, and all floating-point arithmetic. `tests/` runs the
library on concrete values.

Public proof functions named `law_..` state what holds across functions, for
example that the rows logged for a Hermes bucket, whose counters only grow, add
up to its totals however often it is imported, or that importing the same MCP
servers twice changes nothing the second time.
