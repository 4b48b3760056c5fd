//! The `postgres-sql` parser: PostgreSQL-oriented `.sql` files.

pub mod lint;
pub mod parse;

use vstd::prelude::*;
use crate::model::{findings_view, Finding, FindingView};
use crate::parsers::{LintError, LintErrorView, MigrationParser};
use crate::ast::parsed_model;
use crate::statement::SqlStatementView;
use lint::{lint_statement, statement_findings, PARSER_ID};
use parse::parse_statements;

verus! {

/// The findings of a file, statement after statement.
pub open spec fn file_findings(stmts: Seq<SqlStatementView>, file: Seq<char>) -> Seq<FindingView>
    decreases stmts.len(),
{
    if stmts.len() == 0 {
        seq![]
    } else {
        file_findings(stmts.drop_last(), file) + statement_findings(stmts.last(), file)
    }
}

/// The findings of a file are those of its statements, in order: linting two runs of
/// statements one after the other gives the findings of the first, then of the second.
pub proof fn file_findings_concatenate(a: Seq<SqlStatementView>, b: Seq<SqlStatementView>, file: Seq<char>)
    ensures
        file_findings(a + b, file) == file_findings(a, file) + file_findings(b, file),
    decreases b.len(),
{
    if b.len() == 0 {
        assert(a + b =~= a);
        assert(file_findings(a, file) + file_findings(b, file) =~= file_findings(a, file));
    } else {
        file_findings_concatenate(a, b.drop_last(), file);
        assert((a + b).drop_last() =~= a + b.drop_last());
        assert((a + b).last() == b.last());
        assert(file_findings(a, file) + file_findings(b, file) =~= file_findings(a, file)
            + file_findings(b.drop_last(), file) + statement_findings(b.last(), file));
    }
}

/// The parser for PostgreSQL-oriented SQL migrations.
#[derive(Debug, Clone, Copy)]
pub struct PostgresSqlParser;

/// What the `postgres-sql` parser gives for a file.
pub open spec fn postgres_lint(path: Seq<char>, source: Seq<char>) -> Result<Seq<FindingView>, LintErrorView> {
    match parsed_model(source) {
        Ok(stmts) => Ok(file_findings(stmts, path)),
        Err(e) => Err(LintErrorView::Parse { path, error: e }),
    }
}

impl MigrationParser for PostgresSqlParser {
    open spec fn spec_id(&self) -> Seq<char> {
        PARSER_ID@
    }

    open spec fn spec_extensions(&self) -> Seq<Seq<char>> {
        seq![".sql"@]
    }

    open spec fn spec_lint(&self, path: Seq<char>, source: Seq<char>) -> Result<Seq<FindingView>, LintErrorView> {
        postgres_lint(path, source)
    }

    fn id(&self) -> (r: &'static str) {
        PARSER_ID
    }

    fn extensions(&self) -> (r: &'static [&'static str]) {
        let r: &'static [&'static str] = &[".sql"];
        assert(r@.map_values(|s: &str| s@) =~= seq![".sql"@]);
        r
    }

    fn lint(&self, path: &str, source: &str) -> (r: Result<Vec<Finding>, LintError>) {
        let stmts = parse_statements(source, path)?;
        let mut findings: Vec<Finding> = Vec::new();
        let mut i: usize = 0;
        while i < stmts.len()
            invariant
                i <= stmts@.len(),
                parsed_model(source@) == Ok::<Seq<SqlStatementView>, crate::ast::SqlSyntaxError>(
                    crate::statement::statements_view(stmts@),
                ),
                findings_view(findings@) == file_findings(crate::statement::statements_view(stmts@).take(i as int), path@),
            decreases stmts@.len() - i,
        {
            let mut more = lint_statement(&stmts[i], path);
            let ghost prev = findings@;
            let ghost added = more@;
            findings.append(&mut more);
            proof {
                let sv = crate::statement::statements_view(stmts@);
                assert(sv.take(i + 1).drop_last() =~= sv.take(i as int));
                assert(findings_view(findings@) =~= findings_view(prev) + findings_view(added));
            }
            i = i + 1;
        }
        assert(crate::statement::statements_view(stmts@).take(stmts@.len() as int) =~= crate::statement::statements_view(stmts@));
        Ok(findings)
    }
}

} // verus!
