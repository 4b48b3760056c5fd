use std::collections::HashSet;

use migrate_doctor::config::{known_rule_ids, rule_catalog, Config};
use migrate_doctor::model::{Finding, Severity};
use migrate_doctor::rules::postgres as rules;

/// Builds a configuration from the `[rules]` table of a TOML text.
fn config_from_toml(text: &str) -> Config {
    let table: toml::Table = toml::from_str(text).unwrap();
    let mut entries: Vec<(String, bool)> = Vec::new();
    if let Some(rules) = table.get("rules") {
        for (k, v) in rules.as_table().expect("[rules] must be a table") {
            entries.push((k.clone(), v.as_bool().expect("rule switches are booleans")));
        }
    }
    Config::from_rules(&entries)
}

#[test]
fn rule_catalog_matches_known_rule_ids() {
    let a: HashSet<_> = rule_catalog().iter().map(|r| r.id).collect();
    let b: HashSet<_> = known_rule_ids().iter().copied().collect();
    assert_eq!(
        a, b,
        "RULE_CATALOG and KNOWN_RULE_IDS must list the same rule ids"
    );
}

#[test]
fn parses_rules_table() {
    let cfg = config_from_toml(
        r#"
            [rules]
            "postgres-sql/ban-drop" = false
            "postgres-sql/require-concurrent-index" = true
            "#,
    );
    assert!(!cfg.rule_enabled(rules::BAN_DROP));
    assert!(cfg.rule_enabled(rules::REQUIRE_CONCURRENT_INDEX));
    assert!(cfg.rule_enabled(rules::ADDING_FIELD_WITH_DEFAULT));
}

#[test]
fn filter_drops_disabled() {
    let cfg = config_from_toml(
        r#"
            [rules]
            "postgres-sql/ban-drop" = false
            "#,
    );
    let findings = vec![
        Finding {
            rule_id: rules::BAN_DROP,
            severity: Severity::Warning,
            message: "x".into(),
            file: "a.sql".into(),
            line: None,
            parser_id: "postgres-sql",
        },
        Finding {
            rule_id: rules::REQUIRE_CONCURRENT_INDEX,
            severity: Severity::Error,
            message: "y".into(),
            file: "a.sql".into(),
            line: None,
            parser_id: "postgres-sql",
        },
    ];
    let kept = cfg.filter_findings(findings);
    assert_eq!(kept.len(), 1);
    assert_eq!(kept[0].rule_id, rules::REQUIRE_CONCURRENT_INDEX);
}

fn finding(rule_id: &'static str, message: &str) -> Finding {
    Finding {
        rule_id,
        severity: Severity::Warning,
        message: message.into(),
        file: "m.sql".into(),
        line: Some(1),
        parser_id: "postgres-sql",
    }
}

#[test]
fn empty_config_enables_every_known_rule() {
    let cfg = Config::default();
    for id in known_rule_ids() {
        assert!(cfg.rule_enabled(id));
    }
    assert!(cfg.rule_enabled("some/other-rule"));
    let empty_file = config_from_toml("");
    assert!(empty_file.rule_enabled(rules::BAN_DROP));
}

#[test]
fn later_switch_of_a_rule_wins() {
    let cfg = Config::from_rules(&[
        (rules::BAN_DROP.to_string(), false),
        (rules::BAN_DROP.to_string(), true),
        (rules::ADDING_FIELD_WITH_DEFAULT.to_string(), false),
    ]);
    assert!(cfg.rule_enabled(rules::BAN_DROP));
    assert!(!cfg.rule_enabled(rules::ADDING_FIELD_WITH_DEFAULT));
}

#[test]
fn set_rule_then_query() {
    let mut cfg = Config::new();
    cfg.set_rule(rules::PREFER_FOREIGN_KEY_NOT_VALID.to_string(), false);
    assert!(!cfg.rule_enabled(rules::PREFER_FOREIGN_KEY_NOT_VALID));
    assert!(cfg.rule_enabled(rules::BAN_DROP));
    cfg.set_rule(rules::PREFER_FOREIGN_KEY_NOT_VALID.to_string(), true);
    assert!(cfg.rule_enabled(rules::PREFER_FOREIGN_KEY_NOT_VALID));
}

#[test]
fn filter_keeps_order_and_is_idempotent() {
    let cfg = Config::from_rules(&[(rules::BAN_DROP.to_string(), false)]);
    let findings = vec![
        finding(rules::ADDING_FIELD_WITH_DEFAULT, "1"),
        finding(rules::BAN_DROP, "2"),
        finding(rules::PREFER_FOREIGN_KEY_NOT_VALID, "3"),
        finding(rules::BAN_DROP, "4"),
        finding(rules::ADDING_FIELD_WITH_DEFAULT, "5"),
    ];
    let kept = cfg.filter_findings(findings);
    let messages: Vec<&str> = kept.iter().map(|f| f.message.as_str()).collect();
    assert_eq!(messages, vec!["1", "3", "5"]);
    let again = cfg.filter_findings(kept);
    let messages: Vec<&str> = again.iter().map(|f| f.message.as_str()).collect();
    assert_eq!(messages, vec!["1", "3", "5"]);
}

#[test]
fn catalog_severities() {
    let catalog = rule_catalog();
    assert_eq!(catalog.len(), 4);
    assert_eq!(catalog[0].id, rules::REQUIRE_CONCURRENT_INDEX);
    assert_eq!(catalog[0].severity, "error");
    assert_eq!(catalog[1].severity, "warning");
    assert_eq!(catalog[2].summary, "ALTER TABLE ... ADD COLUMN ... with DEFAULT");
    assert_eq!(known_rule_ids(), vec![
        "postgres-sql/require-concurrent-index",
        "postgres-sql/ban-drop",
        "postgres-sql/adding-field-with-default",
        "postgres-sql/prefer-foreign-key-not-valid",
    ]);
}
