//! Core lint logic for PostgreSQL-oriented migration SQL.

use vstd::prelude::*;

pub mod ast;
pub mod config;
pub mod model;
pub mod parsers;
pub mod paths;
pub mod report;
pub mod rules;
pub mod statement;
pub mod text;

pub use model::Severity;

use ast::{parse_sql_statements, parsed_model, SqlSyntaxError};
use parsers::postgres_sql::lint::{hits_view, reported_line, rule_hits, statement_rule_hits, stmt_line, RuleHitView};
use statement::{statements_view, SqlStatement, SqlStatementView};
use model::FindingView;
use parsers::LintErrorView;
use parsers::postgres_sql::{file_findings, postgres_lint};
use parsers::postgres_sql::lint::{statement_findings, PARSER_ID};
use rules::postgres::{rule_id_is_prefixed_suffix, RULE_ID_PREFIX};
use text::owned;
use paths::{
    first_indices_in_order, is_sorted_dedup, keys_view, lemma_sorted_dedup_witness, lists_files,
    select_sql_files, selected_sql_files, sorted_dedup_witness, sorted_first_indices, index_seq,
    CollectError, PathInput,
};

verus! {

/// One problem found in a migration file.
#[derive(Debug)]
pub struct Finding {
    pub rule_id: &'static str,
    pub severity: Severity,
    pub message: String,
    pub file: String,
    /// 1-based line when known
    pub line: Option<u32>,
}

/// The mathematical value of a [`Finding`].
pub struct SqlFindingView {
    pub rule_id: Seq<char>,
    pub severity: Severity,
    pub message: Seq<char>,
    pub file: Seq<char>,
    pub line: Option<u32>,
}

impl View for Finding {
    type V = SqlFindingView;

    open spec fn view(&self) -> SqlFindingView {
        SqlFindingView {
            rule_id: self.rule_id@,
            severity: self.severity,
            message: self.message@,
            file: self.file@,
            line: self.line,
        }
    }
}

/// The views of a sequence of findings.
pub open spec fn sql_findings_view(v: Seq<Finding>) -> Seq<SqlFindingView> {
    v.map_values(|f: Finding| f@)
}

/// The finding that reports a rule hit; the rule is named without its parser prefix.
pub open spec fn sql_hit_finding(h: RuleHitView, file: Seq<char>, line: Option<u32>) -> SqlFindingView {
    SqlFindingView {
        rule_id: h.rule.spec_suffix(),
        severity: h.rule.spec_severity(),
        message: h.message,
        file,
        line,
    }
}

/// The findings of one statement.
pub open spec fn sql_statement_findings(stmt: SqlStatementView, file: Seq<char>) -> Seq<SqlFindingView> {
    statement_rule_hits(stmt).map_values(|h: RuleHitView| sql_hit_finding(h, file, reported_line(stmt.line)))
}

/// The findings of a file, statement after statement.
pub open spec fn sql_file_findings(stmts: Seq<SqlStatementView>, file: Seq<char>) -> Seq<SqlFindingView>
    decreases stmts.len(),
{
    if stmts.len() == 0 {
        seq![]
    } else {
        sql_file_findings(stmts.drop_last(), file) + sql_statement_findings(stmts.last(), file)
    }
}

/// The findings of a file are those of its statements, in order: linting two runs of
/// statements one after the other gives the findings of the first, then of the second.
pub proof fn sql_file_findings_concatenate(a: Seq<SqlStatementView>, b: Seq<SqlStatementView>, file: Seq<char>)
    ensures
        sql_file_findings(a + b, file) == sql_file_findings(a, file) + sql_file_findings(b, file),
    decreases b.len(),
{
    if b.len() == 0 {
        assert(a + b =~= a);
        assert(sql_file_findings(a, file) + sql_file_findings(b, file) =~= sql_file_findings(a, file));
    } else {
        sql_file_findings_concatenate(a, b.drop_last(), file);
        assert((a + b).drop_last() =~= a + b.drop_last());
        assert((a + b).last() == b.last());
        assert(sql_file_findings(a, file) + sql_file_findings(b, file) =~= sql_file_findings(a, file)
            + sql_file_findings(b.drop_last(), file) + sql_statement_findings(b.last(), file));
    }
}

/// What linting a migration text gives.
pub open spec fn spec_lint_sql_file(path: Seq<char>, sql: Seq<char>) -> Result<Seq<SqlFindingView>, SqlSyntaxError> {
    match parsed_model(sql) {
        Ok(stmts) => Ok(sql_file_findings(stmts, path)),
        Err(e) => Err(e),
    }
}

/// The finding that the `postgres-sql` parser reports for the same problem: the rule id
/// carries the parser's prefix, and the parser is named.
pub open spec fn with_parser(f: SqlFindingView) -> FindingView {
    FindingView {
        rule_id: RULE_ID_PREFIX@ + f.rule_id,
        severity: f.severity,
        message: f.message,
        file: f.file,
        line: f.line,
        parser_id: PARSER_ID@,
    }
}

/// [`lint_sql_file`] and the `postgres-sql` parser report the same findings of a file, in
/// the same order, the parser with its prefix on the rule ids; they refuse the same texts.
pub proof fn sql_file_lint_agrees_with_parser(path: Seq<char>, sql: Seq<char>)
    ensures
        match (spec_lint_sql_file(path, sql), postgres_lint(path, sql)) {
            (Ok(a), Ok(b)) => b == a.map_values(|f: SqlFindingView| with_parser(f)),
            (Err(e), Err(b)) => b == (LintErrorView::Parse { path, error: e }),
            _ => false,
        },
{
    match parsed_model(sql) {
        Ok(stmts) => { lemma_file_findings_agree(stmts, path); },
        Err(_) => {},
    }
}

proof fn lemma_statement_findings_agree(stmt: SqlStatementView, file: Seq<char>)
    ensures
        statement_findings(stmt, file) == sql_statement_findings(stmt, file).map_values(|f: SqlFindingView| with_parser(f)),
{
    let a = sql_statement_findings(stmt, file);
    let b = statement_findings(stmt, file);
    assert forall|i: int| 0 <= i < b.len() implies b[i] == with_parser(a[i]) by {
        rule_id_is_prefixed_suffix(statement_rule_hits(stmt)[i].rule);
    }
    assert(b =~= a.map_values(|f: SqlFindingView| with_parser(f)));
}

proof fn lemma_file_findings_agree(stmts: Seq<SqlStatementView>, file: Seq<char>)
    ensures
        file_findings(stmts, file) == sql_file_findings(stmts, file).map_values(|f: SqlFindingView| with_parser(f)),
    decreases stmts.len(),
{
    if stmts.len() > 0 {
        lemma_file_findings_agree(stmts.drop_last(), file);
        lemma_statement_findings_agree(stmts.last(), file);
        let x = sql_file_findings(stmts.drop_last(), file);
        let y = sql_statement_findings(stmts.last(), file);
        assert((x + y).map_values(|f: SqlFindingView| with_parser(f)) =~= x.map_values(|f: SqlFindingView| with_parser(f))
            + y.map_values(|f: SqlFindingView| with_parser(f)));
    }
}

fn lint_statement(stmt: &SqlStatement, file: &str) -> (out: Vec<Finding>)
    ensures
        sql_findings_view(out@) == sql_statement_findings(stmt@, file@),
{
    let hits = rule_hits(stmt);
    let line = stmt_line(stmt.line);
    let mut out: Vec<Finding> = Vec::new();
    let mut i: usize = 0;
    while i < hits.len()
        invariant
            i <= hits@.len(),
            hits_view(hits@) == statement_rule_hits(stmt@),
            line == reported_line(stmt@.line),
            sql_findings_view(out@) =~= hits_view(hits@).take(i as int).map_values(
                |h: RuleHitView| sql_hit_finding(h, file@, line),
            ),
        decreases hits@.len() - i,
    {
        let h = &hits[i];
        let f = Finding {
            rule_id: h.rule.suffix(),
            severity: h.rule.severity(),
            message: owned(h.message),
            file: owned(file),
            line,
        };
        let ghost prev = out@;
        out.push(f);
        proof {
            assert(sql_findings_view(out@) =~= sql_findings_view(prev).push(f@));
            assert(hits_view(hits@).take(i + 1) =~= hits_view(hits@).take(i as int).push(hits@[i as int]@));
        }
        i = i + 1;
    }
    assert(hits_view(hits@).take(hits@.len() as int) =~= hits_view(hits@));
    out
}

/// Lint the contents of a single migration file.
pub fn lint_sql_file(path: &str, sql: &str) -> (r: Result<Vec<Finding>, SqlSyntaxError>)
    ensures
        match spec_lint_sql_file(path@, sql@) {
            Ok(fs) => r matches Ok(v) && sql_findings_view(v@) == fs,
            Err(e) => r matches Err(e2) && e2 == e,
        },
{
    let stmts = parse_sql_statements(sql)?;
    let ghost sv = statements_view(stmts@);
    let mut findings: Vec<Finding> = Vec::new();
    let mut i: usize = 0;
    while i < stmts.len()
        invariant
            i <= stmts@.len(),
            sv == statements_view(stmts@),
            sql_findings_view(findings@) == sql_file_findings(sv.take(i as int), path@),
        decreases stmts@.len() - i,
    {
        let mut more = lint_statement(&stmts[i], path);
        let ghost prev = findings@;
        let ghost added = more@;
        findings.append(&mut more);
        proof {
            assert(sv.take(i + 1).drop_last() =~= sv.take(i as int));
            assert(sql_findings_view(findings@) =~= sql_findings_view(prev) + sql_findings_view(added));
        }
        i = i + 1;
    }
    assert(sv.take(stmts@.len() as int) =~= sv);
    Ok(findings)
}

/// Collect the `.sql` files of the given paths: a file is kept when its extension is
/// `sql`, a directory gives the `.sql` files found under it, a missing path fails. The
/// result is sorted by path, with repeated paths dropped.
pub fn collect_sql_files(paths: &[PathInput]) -> (r: Result<Vec<String>, CollectError>)
    ensures
        match selected_sql_files(paths@.map_values(|i: PathInput| i@)) {
            Ok(sel) => r matches Ok(out) && is_sorted_dedup(sel, out@.map_values(|s: String| s@)),
            Err(m) => r matches Err(CollectError::PathNotFound(p)) && p@ == m,
        },
{
    let (texts, keys) = match select_sql_files(paths) {
        Ok(x) => x,
        Err(e) => return Err(e),
    };
    let ghost sel = selected_sql_files(paths@.map_values(|i: PathInput| i@))->Ok_0;
    let order = sorted_first_indices(&keys);
    let mut out: Vec<String> = Vec::new();
    let mut i: usize = 0;
    while i < order.len()
        invariant
            i <= order@.len(),
            lists_files(texts@, keys@, sel),
            first_indices_in_order(keys_view(keys@), keys@.len() as int, order@),
            out@.len() == i,
            forall|j: int| 0 <= j < i ==> (#[trigger] out@[j])@ == texts@[order@[j] as int]@,
        decreases order@.len() - i,
    {
        assert(order@[i as int] < keys@.len());
        out.push(texts[order[i]].clone());
        i = i + 1;
    }
    proof {
        let outv = out@.map_values(|s: String| s@);
        lemma_sorted_dedup_witness(sel, texts@, keys@, order@, outv);
        assert(sorted_dedup_witness(sel, outv, index_seq(order@)));
    }
    Ok(out)
}

} // verus!
