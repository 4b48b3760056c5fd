//! The rule catalog and the per-rule configuration.

use vstd::prelude::*;
use crate::model::{findings_view, severity_name, Finding, FindingView};
use crate::rules::postgres::{
    rule_ids, spec_rule_ids, PostgresRule, ADDING_FIELD_WITH_DEFAULT, BAN_DROP,
    PREFER_FOREIGN_KEY_NOT_VALID, REQUIRE_CONCURRENT_INDEX,
};
use crate::text::str_eq;

verus! {

/// A rule as the catalog lists it.
#[derive(Debug)]
pub struct ListedRule {
    pub id: &'static str,
    pub severity: &'static str,
    pub summary: &'static str,
}

/// The mathematical value of a [`ListedRule`].
pub struct ListedRuleView {
    pub id: Seq<char>,
    pub severity: Seq<char>,
    pub summary: Seq<char>,
}

impl View for ListedRule {
    type V = ListedRuleView;

    open spec fn view(&self) -> ListedRuleView {
        ListedRuleView { id: self.id@, severity: self.severity@, summary: self.summary@ }
    }
}

pub open spec fn listed(id: &'static str, severity: &'static str, summary: &'static str) -> ListedRuleView {
    ListedRuleView { id: id@, severity: severity@, summary: summary@ }
}

/// The catalog of rules.
pub open spec fn spec_rule_catalog() -> Seq<ListedRuleView> {
    seq![
        listed(REQUIRE_CONCURRENT_INDEX, "error", "CREATE INDEX without CONCURRENTLY"),
        listed(BAN_DROP, "warning", "DROP objects (wording depends on object type)"),
        listed(ADDING_FIELD_WITH_DEFAULT, "warning", "ALTER TABLE ... ADD COLUMN ... with DEFAULT"),
        listed(PREFER_FOREIGN_KEY_NOT_VALID, "warning", "ALTER TABLE ... ADD ... FOREIGN KEY"),
    ]
}

/// The catalog of rules, with their default severities and what they flag.
pub fn rule_catalog() -> (r: Vec<ListedRule>)
    ensures
        r@.map_values(|l: ListedRule| l@) == spec_rule_catalog(),
{
    let r: Vec<ListedRule> = vec![
        ListedRule {
            id: REQUIRE_CONCURRENT_INDEX,
            severity: "error",
            summary: "CREATE INDEX without CONCURRENTLY",
        },
        ListedRule {
            id: BAN_DROP,
            severity: "warning",
            summary: "DROP objects (wording depends on object type)",
        },
        ListedRule {
            id: ADDING_FIELD_WITH_DEFAULT,
            severity: "warning",
            summary: "ALTER TABLE ... ADD COLUMN ... with DEFAULT",
        },
        ListedRule {
            id: PREFER_FOREIGN_KEY_NOT_VALID,
            severity: "warning",
            summary: "ALTER TABLE ... ADD ... FOREIGN KEY",
        },
    ];
    assert(r@.map_values(|l: ListedRule| l@) =~= spec_rule_catalog());
    r
}

/// The ids of the rules that a configuration can name.
pub fn known_rule_ids() -> (r: Vec<&'static str>)
    ensures
        r@.map_values(|s: &str| s@) == spec_rule_ids(),
{
    rule_ids()
}

/// The map that a list of switches gives, a later switch of a rule replacing an earlier one.
pub open spec fn switches_map(entries: Seq<(String, bool)>) -> Map<Seq<char>, bool>
    decreases entries.len(),
{
    if entries.len() == 0 {
        Map::empty()
    } else {
        switches_map(entries.drop_last()).insert(entries.last().0@, entries.last().1)
    }
}

/// Which rules are switched on or off; a rule that is not named is on.
#[derive(Debug)]
pub struct Config {
    rules: Vec<(String, bool)>,
}

/// No rule id occurs twice among the entries.
pub open spec fn distinct_keys(s: Seq<(String, bool)>) -> bool {
    forall|i: int, j: int| 0 <= i < s.len() && 0 <= j < s.len() && i != j ==> s[i].0@ != s[j].0@
}

/// Whether some entry names `k`.
pub open spec fn has_key(s: Seq<(String, bool)>, k: Seq<char>) -> bool {
    exists|i: int| 0 <= i < s.len() && s[i].0@ == k
}

/// The entries as a map from rule id to switch.
pub open spec fn entries_map(s: Seq<(String, bool)>) -> Map<Seq<char>, bool> {
    Map::new(
        |k: Seq<char>| has_key(s, k),
        |k: Seq<char>| s[choose|i: int| 0 <= i < s.len() && s[i].0@ == k].1,
    )
}

/// Whether a rule is on under a configuration.
pub open spec fn spec_rule_enabled(cfg: Map<Seq<char>, bool>, rule_id: Seq<char>) -> bool {
    !cfg.contains_key(rule_id) || cfg[rule_id]
}

/// The findings whose rules are on, in their order.
pub open spec fn enabled_findings(cfg: Map<Seq<char>, bool>, fs: Seq<FindingView>) -> Seq<FindingView>
    decreases fs.len(),
{
    if fs.len() == 0 {
        seq![]
    } else if spec_rule_enabled(cfg, fs.last().rule_id) {
        enabled_findings(cfg, fs.drop_last()).push(fs.last())
    } else {
        enabled_findings(cfg, fs.drop_last())
    }
}

impl View for Config {
    type V = Map<Seq<char>, bool>;

    closed spec fn view(&self) -> Map<Seq<char>, bool> {
        entries_map(self.rules@)
    }
}

proof fn lemma_entry_value(s: Seq<(String, bool)>, i: int)
    requires
        distinct_keys(s),
        0 <= i < s.len(),
    ensures
        entries_map(s).contains_key(s[i].0@),
        entries_map(s)[s[i].0@] == s[i].1,
{
    let k = s[i].0@;
    assert(has_key(s, k));
    let j = choose|j: int| 0 <= j < s.len() && s[j].0@ == k;
    assert(j == i);
}

proof fn lemma_replace_entry(old_rules: Seq<(String, bool)>, rules: Seq<(String, bool)>, i: int)
    requires
        distinct_keys(old_rules),
        0 <= i < old_rules.len(),
        rules.len() == old_rules.len(),
        rules[i].0@ == old_rules[i].0@,
        forall|j: int| 0 <= j < rules.len() && j != i ==> rules[j] == old_rules[j],
    ensures
        distinct_keys(rules),
        entries_map(rules) == entries_map(old_rules).insert(rules[i].0@, rules[i].1),
{
    assert forall|k: Seq<char>| #[trigger] has_key(rules, k) == has_key(old_rules, k) by {
        if has_key(old_rules, k) {
            let j = choose|j: int| 0 <= j < old_rules.len() && old_rules[j].0@ == k;
            if j != i { assert(rules[j] == old_rules[j]); }
        }
        if has_key(rules, k) {
            let j = choose|j: int| 0 <= j < rules.len() && rules[j].0@ == k;
            if j != i { assert(rules[j] == old_rules[j]); }
        }
    }
    assert forall|a: int, b: int| 0 <= a < rules.len() && 0 <= b < rules.len() && a != b
        implies rules[a].0@ != rules[b].0@ by {
        if a != i { assert(rules[a] == old_rules[a]); }
        if b != i { assert(rules[b] == old_rules[b]); }
    }
    assert forall|k: Seq<char>| has_key(rules, k) implies entries_map(rules)[k]
        == entries_map(old_rules).insert(rules[i].0@, rules[i].1)[k] by {
        let j = choose|j: int| 0 <= j < rules.len() && rules[j].0@ == k;
        lemma_entry_value(rules, j);
        if j != i {
            assert(rules[j] == old_rules[j]);
            lemma_entry_value(old_rules, j);
        }
    }
    assert(has_key(old_rules, rules[i].0@));
    assert(entries_map(rules) =~= entries_map(old_rules).insert(rules[i].0@, rules[i].1));
}

proof fn lemma_push_entry(old_rules: Seq<(String, bool)>, rules: Seq<(String, bool)>)
    requires
        distinct_keys(old_rules),
        rules.len() == old_rules.len() + 1,
        forall|j: int| 0 <= j < old_rules.len() ==> rules[j] == old_rules[j],
        forall|j: int| 0 <= j < old_rules.len() ==> old_rules[j].0@ != rules[old_rules.len() as int].0@,
    ensures
        distinct_keys(rules),
        entries_map(rules) == entries_map(old_rules).insert(
            rules[old_rules.len() as int].0@,
            rules[old_rules.len() as int].1,
        ),
{
    let n = old_rules.len() as int;
    let key = rules[n].0@;
    assert forall|k: Seq<char>| #[trigger] has_key(rules, k) == (has_key(old_rules, k) || k == key) by {
        if has_key(old_rules, k) {
            let j = choose|j: int| 0 <= j < old_rules.len() && old_rules[j].0@ == k;
            assert(rules[j] == old_rules[j]);
        }
        if has_key(rules, k) {
            let j = choose|j: int| 0 <= j < rules.len() && rules[j].0@ == k;
            if j != n { assert(rules[j] == old_rules[j]); }
        }
        if k == key { assert(rules[n].0@ == k); }
    }
    assert forall|a: int, b: int| 0 <= a < rules.len() && 0 <= b < rules.len() && a != b
        implies rules[a].0@ != rules[b].0@ by {
        if a != n { assert(rules[a] == old_rules[a]); }
        if b != n { assert(rules[b] == old_rules[b]); }
    }
    assert forall|k: Seq<char>| has_key(rules, k) implies entries_map(rules)[k]
        == entries_map(old_rules).insert(key, rules[n].1)[k] by {
        let j = choose|j: int| 0 <= j < rules.len() && rules[j].0@ == k;
        lemma_entry_value(rules, j);
        if j != n {
            assert(rules[j] == old_rules[j]);
            lemma_entry_value(old_rules, j);
        }
    }
    assert(entries_map(rules) =~= entries_map(old_rules).insert(key, rules[n].1));
}

impl Config {
    #[verifier::type_invariant]
    spec fn keys_distinct(self) -> bool {
        distinct_keys(self.rules@)
    }

    /// A configuration that names no rule, so every rule is on.
    pub fn new() -> (r: Config)
        ensures
            r@ == Map::<Seq<char>, bool>::empty(),
    {
        let r = Config { rules: Vec::new() };
        assert(r@ =~= Map::<Seq<char>, bool>::empty());
        r
    }

    /// Switches a rule on or off; a later switch of the same rule replaces an earlier one.
    pub fn set_rule(&mut self, rule_id: String, enabled: bool)
        ensures
            final(self)@ == old(self)@.insert(rule_id@, enabled),
    {
        proof { use_type_invariant(&*self); }
        let ghost old_rules = self.rules@;
        let ghost key = rule_id@;
        let mut found: Option<usize> = None;
        let mut i: usize = 0;
        while i < self.rules.len() && found.is_none()
            invariant
                i <= self.rules@.len(),
                self.rules@ == old_rules,
                key == rule_id@,
                found matches Some(f) ==> f < old_rules.len() && old_rules[f as int].0@ == key,
                found is None ==> forall|j: int| 0 <= j < i ==> old_rules[j].0@ != key,
            decreases self.rules@.len() - i + (if found is None { 1int } else { 0int }),
        {
            if self.rules[i].0 == rule_id {
                found = Some(i);
            } else {
                i = i + 1;
            }
        }
        let mut rules: Vec<(String, bool)> = Vec::new();
        std::mem::swap(&mut rules, &mut self.rules);
        match found {
            Some(f) => {
                rules.set(f, (rule_id, enabled));
                proof { lemma_replace_entry(old_rules, rules@, f as int); }
            },
            None => {
                rules.push((rule_id, enabled));
                proof { lemma_push_entry(old_rules, rules@); }
            },
        }
        self.rules = rules;
    }

    /// A configuration from a list of switches, a later switch of a rule replacing an
    /// earlier one.
    pub fn from_rules(entries: &[(String, bool)]) -> (r: Config)
        ensures
            r@ == switches_map(entries@),
    {
        let mut cfg = Config::new();
        let mut i: usize = 0;
        while i < entries.len()
            invariant
                i <= entries@.len(),
                cfg@ == switches_map(entries@.take(i as int)),
            decreases entries@.len() - i,
        {
            let id = entries[i].0.clone();
            cfg.set_rule(id, entries[i].1);
            assert(entries@.take(i + 1).drop_last() =~= entries@.take(i as int));
            i = i + 1;
        }
        assert(entries@.take(entries@.len() as int) =~= entries@);
        cfg
    }

    /// Whether the rule `rule_id` is on.
    pub fn rule_enabled(&self, rule_id: &str) -> (r: bool)
        ensures
            r == spec_rule_enabled(self@, rule_id@),
    {
        proof { use_type_invariant(self); }
        let mut i: usize = 0;
        while i < self.rules.len()
            invariant
                i <= self.rules@.len(),
                distinct_keys(self.rules@),
                forall|j: int| 0 <= j < i ==> self.rules@[j].0@ != rule_id@,
            decreases self.rules@.len() - i,
        {
            if str_eq(self.rules[i].0.as_str(), rule_id) {
                proof { lemma_entry_value(self.rules@, i as int); }
                return self.rules[i].1;
            }
            i = i + 1;
        }
        assert(!has_key(self.rules@, rule_id@));
        true
    }

    /// The findings whose rules are on, in their order.
    pub fn filter_findings(&self, findings: Vec<Finding>) -> (r: Vec<Finding>)
        ensures
            findings_view(r@) == enabled_findings(self@, findings_view(findings@)),
    {
        let ghost all = findings_view(findings@);
        let n = findings.len();
        let mut rest = findings;
        let mut out: Vec<Finding> = Vec::new();
        let mut k: usize = 0;
        while rest.len() > 0
            invariant
                k <= all.len(),
                all.len() == n,
                findings_view(rest@) == all.skip(k as int),
                findings_view(out@) == enabled_findings(self@, all.take(k as int)),
            decreases rest@.len(),
        {
            assert(findings_view(rest@).len() == rest@.len());
            assert(k < all.len());
            let f = rest.remove(0);
            let ghost prev = out@;
            let ghost rest_before = all.skip(k as int);
            proof {
                assert(rest_before[0] == f@);
                assert(all.take(k + 1).drop_last() =~= all.take(k as int));
                assert(all.take(k + 1).last() == all[k as int]);
                assert(all.skip(k + 1) =~= rest_before.drop_first());
            }
            if self.rule_enabled(f.rule_id) {
                out.push(f);
                assert(findings_view(out@) =~= findings_view(prev).push(f@));
            }
            k = k + 1;
            proof {
                assert(findings_view(rest@) =~= all.skip(k as int));
            }
        }
        assert(all.take(k as int) =~= all);
        out
    }
}

impl Default for Config {
    fn default() -> (r: Config)
        ensures
            r@ == Map::<Seq<char>, bool>::empty(),
    {
        Config::new()
    }
}

/// The catalog lists exactly the known rule ids, in the same order.
pub proof fn rule_catalog_matches_known_rule_ids()
    ensures
        spec_rule_catalog().map_values(|l: ListedRuleView| l.id) == spec_rule_ids(),
{
    assert(spec_rule_catalog().map_values(|l: ListedRuleView| l.id) =~= spec_rule_ids());
}

/// Every rule of the `postgres-sql` parser stands in the catalog under its id, with the
/// name of the severity that its findings carry.
pub proof fn rule_catalog_gives_rule_severities(rule: PostgresRule)
    ensures
        exists|i: int|
            0 <= i < spec_rule_catalog().len() && #[trigger] spec_rule_catalog()[i].id == rule.spec_id()
                && spec_rule_catalog()[i].severity == severity_name(rule.spec_severity()),
{
    let c = spec_rule_catalog();
    match rule {
        PostgresRule::RequireConcurrentIndex => { assert(c[0].id == rule.spec_id()); },
        PostgresRule::BanDrop => { assert(c[1].id == rule.spec_id()); },
        PostgresRule::AddingFieldWithDefault => { assert(c[2].id == rule.spec_id()); },
        PostgresRule::PreferForeignKeyNotValid => { assert(c[3].id == rule.spec_id()); },
    }
}

/// A configuration that names no rule leaves every rule on.
pub proof fn empty_config_enables_every_rule(rule_id: Seq<char>)
    ensures
        spec_rule_enabled(Map::<Seq<char>, bool>::empty(), rule_id),
{
}

/// After a rule is switched, it is on exactly when it was switched on, and every other
/// rule is as it was.
pub proof fn switch_then_query(cfg: Map<Seq<char>, bool>, rule_id: Seq<char>, enabled: bool, other: Seq<char>)
    ensures
        spec_rule_enabled(cfg.insert(rule_id, enabled), rule_id) == enabled,
        other != rule_id ==> spec_rule_enabled(cfg.insert(rule_id, enabled), other) == spec_rule_enabled(cfg, other),
{
}

/// Filtering keeps a finding exactly when its rule is on: the kept findings are the
/// findings of enabled rules, in order.
pub proof fn enabled_findings_is_filter(cfg: Map<Seq<char>, bool>, fs: Seq<FindingView>)
    ensures
        enabled_findings(cfg, fs) == fs.filter(|f: FindingView| spec_rule_enabled(cfg, f.rule_id)),
    decreases fs.len(),
{
    reveal_with_fuel(Seq::filter, 1);
    if fs.len() > 0 {
        enabled_findings_is_filter(cfg, fs.drop_last());
    }
}

/// No finding of a rule that is switched off survives filtering.
pub proof fn disabled_rule_findings_removed(cfg: Map<Seq<char>, bool>, fs: Seq<FindingView>, rule_id: Seq<char>)
    requires
        cfg.contains_key(rule_id),
        !cfg[rule_id],
    ensures
        forall|i: int| 0 <= i < enabled_findings(cfg, fs).len() ==> #[trigger] enabled_findings(cfg, fs)[i].rule_id != rule_id,
    decreases fs.len(),
{
    if fs.len() > 0 {
        disabled_rule_findings_removed(cfg, fs.drop_last(), rule_id);
    }
}

/// Filtering twice keeps what filtering once keeps.
pub proof fn filtering_is_idempotent(cfg: Map<Seq<char>, bool>, fs: Seq<FindingView>)
    ensures
        enabled_findings(cfg, enabled_findings(cfg, fs)) == enabled_findings(cfg, fs),
    decreases fs.len(),
{
    if fs.len() > 0 {
        filtering_is_idempotent(cfg, fs.drop_last());
        let sub = enabled_findings(cfg, fs.drop_last());
        if spec_rule_enabled(cfg, fs.last().rule_id) {
            assert(sub.push(fs.last()).drop_last() =~= sub);
        }
    }
}

/// With no rule switched off, filtering keeps every finding.
pub proof fn empty_config_keeps_all_findings(fs: Seq<FindingView>)
    ensures
        enabled_findings(Map::<Seq<char>, bool>::empty(), fs) == fs,
    decreases fs.len(),
{
    if fs.len() > 0 {
        empty_config_keeps_all_findings(fs.drop_last());
        assert(fs.drop_last().push(fs.last()) =~= fs);
    }
}

} // verus!

verus! {

/// The last switch of rule `k`'s id in `entries` is entry `k`.
pub open spec fn last_switch(entries: Seq<(String, bool)>, k: int) -> bool {
    &&& 0 <= k < entries.len()
    &&& forall|j: int| k < j < entries.len() ==> entries[j].0@ != entries[k].0@
}

proof fn lemma_switches_domain(entries: Seq<(String, bool)>, key: Seq<char>)
    ensures
        switches_map(entries).contains_key(key) <==> exists|k: int| 0 <= k < entries.len() && #[trigger] entries[k].0@ == key,
    decreases entries.len(),
{
    if entries.len() > 0 {
        let init = entries.drop_last();
        let n = entries.len() - 1;
        lemma_switches_domain(init, key);
        assert(entries.last() == entries[n]);
        if switches_map(entries).contains_key(key) && key != entries[n].0@ {
            let k = choose|k: int| 0 <= k < init.len() && #[trigger] init[k].0@ == key;
            assert(entries[k] == init[k]);
        }
        if exists|k: int| 0 <= k < entries.len() && #[trigger] entries[k].0@ == key {
            let k = choose|k: int| 0 <= k < entries.len() && #[trigger] entries[k].0@ == key;
            if k < n {
                assert(init[k] == entries[k]);
            }
        }
    }
}

proof fn lemma_switches_value(entries: Seq<(String, bool)>, k: int)
    requires
        last_switch(entries, k),
    ensures
        switches_map(entries).contains_key(entries[k].0@),
        switches_map(entries)[entries[k].0@] == entries[k].1,
    decreases entries.len(),
{
    let init = entries.drop_last();
    let n = entries.len() - 1;
    assert(entries.last() == entries[n]);
    if k < n {
        assert(init[k] == entries[k]);
        assert forall|j: int| k < j < init.len() implies init[j].0@ != init[k].0@ by {
            assert(init[j] == entries[j]);
        }
        lemma_switches_value(init, k);
        assert(entries[n].0@ != entries[k].0@);
    }
}

/// Every listed switch takes effect: the configuration names exactly the rules that the
/// switches name, and a rule is on or off as its last switch says, whatever the number of
/// switches.
pub proof fn every_switch_takes_effect(entries: Seq<(String, bool)>)
    ensures
        forall|key: Seq<char>| #[trigger] switches_map(entries).contains_key(key)
            <==> exists|k: int| 0 <= k < entries.len() && #[trigger] entries[k].0@ == key,
        forall|k: int| #[trigger] last_switch(entries, k) ==> switches_map(entries)[entries[k].0@] == entries[k].1
            && spec_rule_enabled(switches_map(entries), entries[k].0@) == entries[k].1,
{
    assert forall|key: Seq<char>| #[trigger] switches_map(entries).contains_key(key)
        <==> exists|k: int| 0 <= k < entries.len() && #[trigger] entries[k].0@ == key by {
        lemma_switches_domain(entries, key);
    }
    assert forall|k: int| #[trigger] last_switch(entries, k) implies switches_map(entries)[entries[k].0@] == entries[k].1
        && spec_rule_enabled(switches_map(entries), entries[k].0@) == entries[k].1 by {
        lemma_switches_value(entries, k);
    }
}

} // verus!
