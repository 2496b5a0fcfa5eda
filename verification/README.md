# smartdns_ui

The query-log store and the client-name cache behind the SmartDNS dashboard.

`src/` is a library in Verus: every decision is there, with a contract that is
proved. It reads no file, no clock and no database. It says which statement is to
be run next and with which values, and what follows from the rows that come back.

- `domain_list`, `client_list`, `paging`: filters, order and pages of the two lists
- `hourly`, `detail`, `report`, `window`, `report_run`, `completeness`,
  `same_report`: the hourly report, and why the log alone decides on it
- `summary`: the table of hourly summaries
- `query_log`, `clients`, `statistics`: rows that are written, counts and top lists
- `open`, `db`, `sql`, `rows`, `error`, `model`: the handle of the store
- `hostname`, `name_files`, `name_map`, `lines`, `text`: names of clients
- `filters`: facts about filtered lists

`app/` runs the library on SQLite (rusqlite), files and clocks, and adds up times,
which are floating-point numbers and pass through the library as bit patterns.

`tests/` runs the library, and its statements on a database in memory.
