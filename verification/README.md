# migrate-doctor

A linter for PostgreSQL-oriented `.sql` migration files: it flags statements that often
lock tables or break running deploys (`CREATE INDEX` without `CONCURRENTLY`, `DROP`,
`ADD COLUMN ... DEFAULT`, `ADD ... FOREIGN KEY`). The library is written in Verus and its
behaviour is stated in `requires` / `ensures` contracts that Verus proves.

## Layout

- `src/ast.rs` — the calls into `sqlparser`, and the verified conversion of its syntax
  tree into plain statement models (`src/statement.rs`).
- `src/parsers/` — the `MigrationParser` trait, the choice of a parser by file extension,
  and the `postgres-sql` parser with its rules (`postgres_sql/lint.rs`).
- `src/lib.rs` — `lint_sql_file` and `collect_sql_files`.
- `src/config.rs` — the rule catalog and the per-rule on/off configuration.
- `src/paths.rs` — file selection, ordering and de-duplication of paths.
- `src/report.rs` — the human-readable finding line and the exit status of a run.
- `app/main.rs` — the `migrate-doctor check` command: arguments, file system, TOML and
  JSON, printing.

Verify with Verus on `src/lib.rs`; `tests/` holds the tests.
