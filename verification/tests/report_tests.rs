use migrate_doctor::model::{Finding, Severity};
use migrate_doctor::paths::{FsPath, PathComponent, PathInput, PathPrefix};
use migrate_doctor::report::{decimal_string, render_finding, run_fails};
use migrate_doctor::{collect_sql_files, Severity as RootSeverity};

fn finding(severity: Severity, line: Option<u32>) -> Finding {
    Finding {
        rule_id: "postgres-sql/ban-drop",
        severity,
        message: "DROP is risky".into(),
        file: "db/m.sql".into(),
        line,
        parser_id: "postgres-sql",
    }
}

#[test]
fn exit_status_follows_severities() {
    assert!(!run_fails(&[], false));
    assert!(!run_fails(&[], true));
    let warn = vec![finding(Severity::Warning, None)];
    assert!(!run_fails(&warn, false));
    assert!(run_fails(&warn, true));
    let err = vec![finding(Severity::Warning, None), finding(RootSeverity::Error, None)];
    assert!(run_fails(&err, false));
    assert!(run_fails(&err, true));
}

#[test]
fn finding_lines_are_rendered() {
    assert_eq!(
        render_finding(&finding(Severity::Warning, Some(12))),
        "warning [postgres-sql/ban-drop] db/m.sql:12: DROP is risky"
    );
    assert_eq!(
        render_finding(&finding(Severity::Error, None)),
        "error [postgres-sql/ban-drop] db/m.sql: DROP is risky"
    );
    assert_eq!(decimal_string(0), "0");
    assert_eq!(decimal_string(907), "907");
    assert_eq!(decimal_string(u32::MAX), "4294967295");
}

fn path(text: &str) -> FsPath {
    let components = std::path::Path::new(text)
        .components()
        .map(|c| match c {
            std::path::Component::Prefix(_) => unreachable!("no prefixes on this platform"),
            std::path::Component::RootDir => PathComponent::RootDir,
            std::path::Component::CurDir => PathComponent::CurDir,
            std::path::Component::ParentDir => PathComponent::ParentDir,
            std::path::Component::Normal(s) => PathComponent::Normal(s.to_string_lossy().into_owned()),
        })
        .collect();
    FsPath { text: text.to_string(), components }
}

#[test]
fn collected_files_are_sorted_and_deduplicated() {
    let inputs = vec![
        PathInput::File(path("db/b.sql")),
        PathInput::Dir(vec![path("db/a-b.sql"), path("db/a/b.sql"), path("db/notes.txt"), path("db/b.sql"), path("db/c.SQL")]),
        PathInput::File(path("README.md")),
        PathInput::File(path("./db//b.sql")),
    ];
    let files = collect_sql_files(&inputs).unwrap();
    // `a/b.sql` sorts before `a-b.sql`: paths compare component by component.
    assert_eq!(files, vec!["./db//b.sql", "db/a/b.sql", "db/a-b.sql", "db/b.sql"]);
    let mut expected: Vec<std::path::PathBuf> =
        ["db/b.sql", "db/a-b.sql", "db/a/b.sql", "db/b.sql", "./db//b.sql"].iter().map(|p| p.into()).collect();
    expected.sort();
    expected.dedup();
    let got: Vec<std::path::PathBuf> = files.iter().map(|p| p.into()).collect();
    assert_eq!(got, expected);
}

#[test]
fn missing_path_is_an_error() {
    let inputs = vec![
        PathInput::File(path("a.sql")),
        PathInput::Missing("nowhere".to_string()),
        PathInput::Missing("elsewhere".to_string()),
    ];
    let err = collect_sql_files(&inputs).unwrap_err();
    assert_eq!(err.message(), "path not found: nowhere");
    assert!(collect_sql_files(&[]).unwrap().is_empty());
}

#[test]
fn collected_files_ignore_input_order() {
    let dir = || PathInput::Dir(vec![path("m/2.sql"), path("m/1.sql"), path("m/x.txt")]);
    let one = vec![PathInput::File(path("z.sql")), dir(), PathInput::File(path("a.sql"))];
    let two = vec![dir(), PathInput::File(path("a.sql")), PathInput::File(path("z.sql")), dir()];
    let f1 = collect_sql_files(&one).unwrap();
    let f2 = collect_sql_files(&two).unwrap();
    assert_eq!(f1, f2);
    assert_eq!(f1, vec!["a.sql", "m/1.sql", "m/2.sql", "z.sql"]);
    let bad1 = vec![PathInput::Missing("x".into()), PathInput::File(path("a.sql"))];
    let bad2 = vec![PathInput::File(path("a.sql")), PathInput::Missing("x".into())];
    assert!(collect_sql_files(&bad1).is_err() && collect_sql_files(&bad2).is_err());
}

fn windows_path(text: &str, prefix: PathPrefix, rest: &[&str]) -> FsPath {
    let mut components = vec![PathComponent::Prefix(prefix), PathComponent::RootDir];
    components.extend(rest.iter().map(|s| PathComponent::Normal(s.to_string())));
    FsPath { text: text.to_string(), components }
}

#[test]
fn drive_prefixes_compare_as_parsed() {
    let inputs = vec![PathInput::Dir(vec![
        windows_path("d:\\m\\a.sql", PathPrefix::Disk(b'D'), &["m", "a.sql"]),
        windows_path("c:\\m\\b.sql", PathPrefix::Disk(b'C'), &["m", "b.sql"]),
        windows_path("C:\\m\\b.sql", PathPrefix::Disk(b'C'), &["m", "b.sql"]),
        windows_path("\\\\?\\z:\\a.sql", PathPrefix::VerbatimDisk(b'Z'), &["a.sql"]),
        windows_path("\\\\srv\\share\\a.sql", PathPrefix::UNC("srv".into(), "share".into()), &["a.sql"]),
    ])];
    let files = collect_sql_files(&inputs).unwrap();
    // `Prefix` orders VerbatimDisk before UNC before Disk, and drives by their letter.
    assert_eq!(files, vec!["\\\\?\\z:\\a.sql", "\\\\srv\\share\\a.sql", "c:\\m\\b.sql", "d:\\m\\a.sql"]);
}
