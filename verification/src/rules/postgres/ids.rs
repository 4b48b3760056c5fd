//! Rule ids of the `postgres-sql` parser.

use vstd::prelude::*;
use crate::model::Severity;

verus! {

pub const REQUIRE_CONCURRENT_INDEX: &'static str = "postgres-sql/require-concurrent-index";

pub const BAN_DROP: &'static str = "postgres-sql/ban-drop";

pub const ADDING_FIELD_WITH_DEFAULT: &'static str = "postgres-sql/adding-field-with-default";

pub const PREFER_FOREIGN_KEY_NOT_VALID: &'static str = "postgres-sql/prefer-foreign-key-not-valid";

/// The prefix that every rule id of the `postgres-sql` parser starts with.
pub const RULE_ID_PREFIX: &'static str = "postgres-sql/";

/// The rules that the `postgres-sql` parser checks.
#[derive(Clone, Copy, Debug, PartialEq, Eq, Structural)]
pub enum PostgresRule {
    RequireConcurrentIndex,
    BanDrop,
    AddingFieldWithDefault,
    PreferForeignKeyNotValid,
}

impl PostgresRule {
    /// The rule's name without the parser prefix.
    pub open spec fn spec_suffix(self) -> Seq<char> {
        match self {
            PostgresRule::RequireConcurrentIndex => "require-concurrent-index"@,
            PostgresRule::BanDrop => "ban-drop"@,
            PostgresRule::AddingFieldWithDefault => "adding-field-with-default"@,
            PostgresRule::PreferForeignKeyNotValid => "prefer-foreign-key-not-valid"@,
        }
    }

    /// The rule's full id, `postgres-sql/` and its name.
    pub open spec fn spec_id(self) -> Seq<char> {
        match self {
            PostgresRule::RequireConcurrentIndex => REQUIRE_CONCURRENT_INDEX@,
            PostgresRule::BanDrop => BAN_DROP@,
            PostgresRule::AddingFieldWithDefault => ADDING_FIELD_WITH_DEFAULT@,
            PostgresRule::PreferForeignKeyNotValid => PREFER_FOREIGN_KEY_NOT_VALID@,
        }
    }

    /// The default severity of the rule's findings.
    pub open spec fn spec_severity(self) -> Severity {
        match self {
            PostgresRule::RequireConcurrentIndex => Severity::Error,
            _ => Severity::Warning,
        }
    }

    pub fn suffix(&self) -> (r: &'static str)
        ensures
            r@ == self.spec_suffix(),
    {
        match self {
            PostgresRule::RequireConcurrentIndex => "require-concurrent-index",
            PostgresRule::BanDrop => "ban-drop",
            PostgresRule::AddingFieldWithDefault => "adding-field-with-default",
            PostgresRule::PreferForeignKeyNotValid => "prefer-foreign-key-not-valid",
        }
    }

    pub fn id(&self) -> (r: &'static str)
        ensures
            r@ == self.spec_id(),
    {
        match self {
            PostgresRule::RequireConcurrentIndex => REQUIRE_CONCURRENT_INDEX,
            PostgresRule::BanDrop => BAN_DROP,
            PostgresRule::AddingFieldWithDefault => ADDING_FIELD_WITH_DEFAULT,
            PostgresRule::PreferForeignKeyNotValid => PREFER_FOREIGN_KEY_NOT_VALID,
        }
    }

    pub fn severity(&self) -> (r: Severity)
        ensures
            r == self.spec_severity(),
    {
        match self {
            PostgresRule::RequireConcurrentIndex => Severity::Error,
            _ => Severity::Warning,
        }
    }
}

/// The rule ids of the `postgres-sql` parser, in the order of the catalog.
pub open spec fn spec_rule_ids() -> Seq<Seq<char>> {
    seq![
        REQUIRE_CONCURRENT_INDEX@,
        BAN_DROP@,
        ADDING_FIELD_WITH_DEFAULT@,
        PREFER_FOREIGN_KEY_NOT_VALID@,
    ]
}

/// The rule ids of the `postgres-sql` parser.
pub fn rule_ids() -> (r: Vec<&'static str>)
    ensures
        r@.map_values(|s: &str| s@) == spec_rule_ids(),
{
    let r: Vec<&'static str> = vec![
        REQUIRE_CONCURRENT_INDEX,
        BAN_DROP,
        ADDING_FIELD_WITH_DEFAULT,
        PREFER_FOREIGN_KEY_NOT_VALID,
    ];
    assert(r@.map_values(|s: &str| s@) =~= spec_rule_ids());
    r
}

/// Every rule id is its parser's prefix followed by the rule's name.
pub proof fn rule_id_is_prefixed_suffix(rule: PostgresRule)
    ensures
        rule.spec_id() == RULE_ID_PREFIX@ + rule.spec_suffix(),
{
    reveal_strlit("postgres-sql/");
    reveal_strlit("postgres-sql/require-concurrent-index");
    reveal_strlit("require-concurrent-index");
    reveal_strlit("postgres-sql/ban-drop");
    reveal_strlit("ban-drop");
    reveal_strlit("postgres-sql/adding-field-with-default");
    reveal_strlit("adding-field-with-default");
    reveal_strlit("postgres-sql/prefer-foreign-key-not-valid");
    reveal_strlit("prefer-foreign-key-not-valid");
    assert(rule.spec_id() =~= RULE_ID_PREFIX@ + rule.spec_suffix());
}

} // verus!
