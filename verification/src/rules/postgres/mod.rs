mod ids;

pub use ids::{
    rule_id_is_prefixed_suffix, rule_ids, spec_rule_ids, PostgresRule, ADDING_FIELD_WITH_DEFAULT,
    BAN_DROP, PREFER_FOREIGN_KEY_NOT_VALID, REQUIRE_CONCURRENT_INDEX, RULE_ID_PREFIX,
};
