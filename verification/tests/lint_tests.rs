use migrate_doctor::lint_sql_file;
use migrate_doctor::model::{Finding, Severity};
use migrate_doctor::parsers::postgres_sql::lint::{
    lint_statement, ADD_COLUMN_DEFAULT_MESSAGE, CREATE_INDEX_MESSAGE, DROP_INDEX_MESSAGE, DROP_MESSAGE,
    DROP_TABLE_MESSAGE, FOREIGN_KEY_MESSAGE,
};
use migrate_doctor::parsers::postgres_sql::parse::parse_statements;
use migrate_doctor::parsers::postgres_sql::PostgresSqlParser;
use migrate_doctor::parsers::{
    default_parsers, extension_of, lint_file, lint_file_with_defaults, LintError, MigrationParser,
};
use migrate_doctor::statement::{AlterOperation, ColumnOptionKind, DropObject, SqlStatement, StatementKind};

fn lint_sql(path: &str, sql: &str) -> Vec<Finding> {
    let stmts = parse_statements(sql, path).unwrap();
    let mut findings = Vec::new();
    for stmt in &stmts {
        findings.extend(lint_statement(stmt, path));
    }
    findings
}

#[test]
fn lib_flags_non_concurrent_index() {
    let sql = "CREATE INDEX idx_users_email ON users (email);";
    let f = lint_sql_file("t.sql", sql).unwrap();
    assert_eq!(f.len(), 1);
    assert_eq!(f[0].rule_id, "require-concurrent-index");
}

#[test]
fn lib_allows_concurrent_index() {
    let sql = "CREATE INDEX CONCURRENTLY idx_users_email ON users (email);";
    let f = lint_sql_file("t.sql", sql).unwrap();
    assert!(f.is_empty());
}

#[test]
fn lib_flags_add_column_with_default() {
    let sql = "ALTER TABLE users ADD COLUMN legacy_id text DEFAULT '';";
    let f = lint_sql_file("t.sql", sql).unwrap();
    assert!(f.iter().any(|x| x.rule_id == "adding-field-with-default"));
}

#[test]
fn lint_flags_non_concurrent_index() {
    let sql = "CREATE INDEX idx_users_email ON users (email);";
    let f = lint_sql("t.sql", sql);
    assert_eq!(f.len(), 1);
    assert_eq!(f[0].rule_id, "postgres-sql/require-concurrent-index");
}

#[test]
fn lint_allows_concurrent_index() {
    let sql = "CREATE INDEX CONCURRENTLY idx_users_email ON users (email);";
    let f = lint_sql("t.sql", sql);
    assert!(f.is_empty());
}

#[test]
fn lint_flags_add_column_with_default() {
    let sql = "ALTER TABLE users ADD COLUMN legacy_id text DEFAULT '';";
    let f = lint_sql("t.sql", sql);
    assert!(f
        .iter()
        .any(|x| x.rule_id == "postgres-sql/adding-field-with-default"));
}

#[test]
fn parse_error_includes_path() {
    let err = match parse_statements("NOT SQL AT ALL;;;", "db/migrations/bad.sql") {
        Ok(_) => panic!("expected a parse error"),
        Err(e) => e,
    };
    let s = err.message();
    assert!(s.contains("bad.sql"), "expected path in error, got: {s}");
}

#[test]
fn parse_error_message_shape() {
    let err = match parse_statements("NOT SQL AT ALL;;;", "x.sql") {
        Ok(_) => panic!("expected a parse error"),
        Err(e) => e,
    };
    let s = err.message();
    assert!(s.starts_with("failed to parse x.sql as PostgreSQL-oriented SQL (sqlparser): sql parser error: "));
    assert!(s.ends_with("\nHint: fix syntax or split statements; this tool does not execute SQL."));
    assert!(lint_sql_file("x.sql", "NOT SQL AT ALL;;;").is_err());
}

#[test]
fn drop_messages_depend_on_object() {
    let f = lint_sql("d.sql", "DROP TABLE users;\nDROP INDEX idx;\nDROP VIEW v;");
    assert_eq!(f.len(), 3);
    assert!(f.iter().all(|x| x.rule_id == "postgres-sql/ban-drop" && x.severity == Severity::Warning));
    assert_eq!(f[0].message, DROP_TABLE_MESSAGE);
    assert_eq!(f[1].message, DROP_INDEX_MESSAGE);
    assert_eq!(f[2].message, DROP_MESSAGE);
    // sqlparser gives `DROP` statements an empty span, so their line is unknown.
    assert_eq!(f[0].line, None);
    assert_eq!(f[2].file, "d.sql");
    assert_eq!(f[2].parser_id, "postgres-sql");
}

#[test]
fn foreign_key_and_defaults_per_operation() {
    let sql = "ALTER TABLE orders ADD CONSTRAINT fk FOREIGN KEY (user_id) REFERENCES users (id);\n\
               ALTER TABLE orders ADD COLUMN note text;\n\
               ALTER TABLE orders ADD CONSTRAINT u UNIQUE (id);";
    let f = lint_sql("o.sql", sql);
    assert_eq!(f.len(), 1);
    let g = lint_sql("o.sql", "SELECT 1;\nCREATE INDEX i ON t (c);");
    assert_eq!(g[0].line, Some(2));
    assert_eq!(f[0].rule_id, "postgres-sql/prefer-foreign-key-not-valid");
    assert_eq!(f[0].message, FOREIGN_KEY_MESSAGE);
    assert_eq!(f[0].line, Some(1));
}

#[test]
fn select_and_create_table_are_clean() {
    let f = lint_sql("c.sql", "CREATE TABLE t (id int);\nSELECT 1;\nINSERT INTO t VALUES (1);");
    assert!(f.is_empty());
}

#[test]
fn lint_statement_on_written_models() {
    let create = SqlStatement { line: 7, kind: StatementKind::CreateIndex { concurrently: false } };
    let f = lint_statement(&create, "m.sql");
    assert_eq!(f.len(), 1);
    assert_eq!(f[0].severity, Severity::Error);
    assert_eq!(f[0].message, CREATE_INDEX_MESSAGE);
    assert_eq!(f[0].line, Some(7));

    let unknown_line = SqlStatement { line: 0, kind: StatementKind::Drop { object: DropObject::Table } };
    let f = lint_statement(&unknown_line, "m.sql");
    assert_eq!(f[0].line, None);

    let alter = SqlStatement {
        line: 3,
        kind: StatementKind::AlterTable {
            operations: vec![
                AlterOperation::AddColumn { options: vec![ColumnOptionKind::Other, ColumnOptionKind::Default] },
                AlterOperation::AddConstraint { foreign_key: true },
                AlterOperation::AddColumn { options: vec![ColumnOptionKind::Other] },
                AlterOperation::Other,
                AlterOperation::AddColumn { options: vec![ColumnOptionKind::Default] },
            ],
        },
    };
    let f = lint_statement(&alter, "m.sql");
    let ids: Vec<&str> = f.iter().map(|x| x.rule_id).collect();
    assert_eq!(ids, vec![
        "postgres-sql/adding-field-with-default",
        "postgres-sql/prefer-foreign-key-not-valid",
        "postgres-sql/adding-field-with-default",
    ]);
    assert_eq!(f[0].message, ADD_COLUMN_DEFAULT_MESSAGE);

    let line_above_u32 = SqlStatement { line: (1u64 << 32) + 5, kind: StatementKind::Other };
    assert!(lint_statement(&line_above_u32, "m.sql").is_empty());
}

#[test]
fn bare_and_prefixed_findings_agree() {
    let sql = "CREATE INDEX i ON t (c);\nALTER TABLE t ADD COLUMN c int DEFAULT 0;\nDROP TABLE t;";
    let bare = lint_sql_file("a.sql", sql).unwrap();
    let prefixed = lint_sql("a.sql", sql);
    assert_eq!(bare.len(), prefixed.len());
    for (a, b) in bare.iter().zip(prefixed.iter()) {
        assert_eq!(format!("postgres-sql/{}", a.rule_id), b.rule_id);
        assert_eq!(a.message, b.message);
        assert_eq!(a.line, b.line);
        assert_eq!(a.severity, b.severity);
    }
}

#[test]
fn extension_is_lowercased_with_dot() {
    assert_eq!(extension_of("db/m/001.SQL"), Some(".sql".to_string()));
    assert_eq!(extension_of("a.tar.gz"), Some(".gz".to_string()));
    assert_eq!(extension_of("Makefile"), None);
    assert_eq!(extension_of(".bashrc"), None);
}

#[test]
fn lint_file_dispatches_by_extension() {
    let sql = "CREATE INDEX i ON t (c);";
    let f = lint_file_with_defaults("M.SQL", sql).unwrap();
    assert_eq!(f.len(), 1);
    assert_eq!(f[0].rule_id, "postgres-sql/require-concurrent-index");

    let err = lint_file_with_defaults("notes.txt", sql).unwrap_err();
    match &err {
        LintError::NoParser { extension, path, known_parsers } => {
            assert_eq!(extension, ".txt");
            assert_eq!(path, "notes.txt");
            assert_eq!(known_parsers, &vec!["postgres-sql"]);
        }
        other => panic!("unexpected error {other:?}"),
    }
    assert_eq!(
        err.message(),
        "no parser registered for extension \".txt\" (path: notes.txt); known parsers: [\"postgres-sql\"]"
    );

    let parsers = default_parsers();
    let none: Vec<PostgresSqlParser> = Vec::new();
    assert!(lint_file("x.sql", sql, &none).is_err());
    assert_eq!(lint_file("x.sql", sql, &parsers).unwrap().len(), 1);
    assert_eq!(PostgresSqlParser.id(), "postgres-sql");
    assert_eq!(PostgresSqlParser.extensions(), &[".sql"]);
    let err = lint_file_with_defaults("noext", sql).unwrap_err();
    assert!(matches!(err, LintError::NoParser { ref extension, .. } if extension.is_empty()));
}

#[test]
fn lines_beyond_u32_are_unknown() {
    let at = |line: u64| SqlStatement { line, kind: StatementKind::Drop { object: DropObject::Index } };
    assert_eq!(lint_statement(&at(1u64 << 32), "m.sql")[0].line, None);
    assert_eq!(lint_statement(&at((1u64 << 32) + 1), "m.sql")[0].line, None);
    assert_eq!(lint_statement(&at(u32::MAX as u64), "m.sql")[0].line, Some(u32::MAX));
    assert_eq!(lint_statement(&at(1), "m.sql")[0].line, Some(1));
}

#[test]
fn grant_and_flush_errors_are_refused_not_fatal() {
    assert!(lint_sql_file("g.sql", "GRANT SELECT ON t TO u GRANTED BY 1;").is_err());
    assert!(lint_sql_file("g.sql", "REVOKE SELECT ON t FROM u GRANTED BY 1;").is_err());
    let _ = lint_sql_file("f.sql", "FLUSH RELAY LOGS FOR CHANNEL 1;");
    assert!(lint_sql_file("g.sql", "GRANT SELECT ON t TO u GRANTED BY admin;").unwrap().is_empty());
}

#[test]
fn joined_texts_give_joined_findings() {
    let a = "CREATE INDEX i ON t (c);";
    let b = "DROP TABLE t; ALTER TABLE t ADD COLUMN c int DEFAULT 0;";
    let fa = lint_sql_file("j.sql", a).unwrap();
    let fb = lint_sql_file("j.sql", b).unwrap();
    let fj = lint_sql_file("j.sql", &format!("{a} {b}")).unwrap();
    assert_eq!(fj.len(), fa.len() + fb.len());
    for (x, y) in fj.iter().zip(fa.iter().chain(fb.iter())) {
        assert_eq!(x.rule_id, y.rule_id);
        assert_eq!(x.severity, y.severity);
        assert_eq!(x.message, y.message);
        assert_eq!(x.file, y.file);
    }
}

#[test]
fn no_parser_message_lists_every_parser() {
    let two = vec![PostgresSqlParser, PostgresSqlParser];
    let err = lint_file("x.md", "", &two).unwrap_err();
    assert_eq!(
        err.message(),
        "no parser registered for extension \".md\" (path: x.md); known parsers: [\"postgres-sql\", \"postgres-sql\"]"
    );
    let none: Vec<PostgresSqlParser> = Vec::new();
    let err = lint_file("x.md", "", &none).unwrap_err();
    assert!(err.message().ends_with("known parsers: []"));
}
