# twarq

Import X (Twitter) archives into DuckDB and search them from the command line.

`twarq` extracts tweets, deleted tweets, likes, followers and following from
X archive ZIP files into a single DuckDB database. Archives from several
accounts can share a database and be searched together. Output is JSON Lines by
default.

The library under `src/` is verified with [Verus](https://github.com/verus-lang/verus).
It reads no files and opens no database: it says what to do and takes in what
came of it.

| module        | what it decides                                                     |
| ------------- | ------------------------------------------------------------------- |
| `archive`     | which archive entries hold which data, and where their JSON begins  |
| `staging`     | the rows that tweets, likes and follows become, and the SQL they go through |
| `import`      | the course of an import, step by step, and its report               |
| `import_laws` | what holds of every import                                          |
| `cli`         | commands, and the plan that each comes down to                      |
| `search`      | the SQL statement of a search                                       |
| `search_laws` | what holds of every search                                          |
| `query`       | how a query is wrapped, capped and rendered                         |
| `output`      | rows on their way out, as JSON Lines, JSON or a table               |
| `table`       | the layout of tables                                                |
| `mcp`         | the tools of the MCP server                                         |
| `json`        | JSON text, through `serde_json`                                     |
| `number`, `text` | decimal numbers and text                                         |

The program under `app/` does the reading and writing: it unzips archives, talks
to DuckDB, parses the command line and serves MCP clients.

A keyword of a search is a plain, case-insensitive substring: `%` and `_` in it
stand for themselves.
