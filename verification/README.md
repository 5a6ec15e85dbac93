# duckdoor

`duckdoor` is a small, read-only DuckDB gateway for local SQLite, DuckDB and Parquet files. A
bounded pool of workers, each with a DuckDB connection of its own, serves one HTTP endpoint and
a command line.

The crate is written in two parts.

- `src/` is the library, verified with [Verus](https://github.com/verus-lang/verus). It holds
  what the gateway decides and computes, on plain values.
- `app/` is the program around it: arguments, files, processes, the network, and DuckDB itself.

## The library

| module | what it holds |
| --- | --- |
| `text`, `numeral`, `quote`, `order` | strings, numerals, SQL quoting, and stable sorting |
| `columns`, `config`, `defect`, `validate` | the configuration, its defaults, and what makes it valid |
| `sql` | which queries and set-up scripts may be run |
| `sources`, `views`, `pool` | the SQL that registers sources, creates logical views, sets up a worker and shuts it off |
| `engine` | the pool that serves, and how a reload replaces it |
| `query`, `value`, `encoding`, `json` | which worker a query goes to, its rows, and their JSON |
| `server`, `client`, `output` | answers and errors, how results are shown, and the documents of commands |
| `daemon` | the life of the background process |
| `registry`, `transaction`, `documents`, `commands` | what is registered, how it is changed, and what the commands answer |

A contract speaks of a value by its model: a string is the sequence of its characters, a
configuration a record of such sequences, a document a tree. Public proof functions state the
laws that relate several functions, for instance that a change is tried before it is saved and
taken back where the gateway rejects it, that the last pool which could be built serves, that a
worker is shut off after everything else, that nothing in an accepted query writes, or that adding
a backend and removing it again gives the configuration back.

A few functions of other crates are trusted, each with a doc comment that says what is claimed
of it: the parser of `sqlparser` and what it tells of a statement, the encoders of `base64`, and
the record writer of `csv`.

## The program

`app/main.rs` defines the command line. The configuration is kept as TOML in a directory of
state (`--home` or `DUCKDOOR_HOME`), beside `init.sql`, the log, the process number and the token
of the administrator. The gateway listens on `127.0.0.1:9494` by default and is meant for trusted
users of one machine.
