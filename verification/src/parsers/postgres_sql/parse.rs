//! Parsing PostgreSQL-oriented SQL into statement models.

use vstd::prelude::*;
use crate::ast::{parse_sql_statements, parsed_model};
use crate::parsers::LintError;
use crate::statement::{statements_view, SqlStatement};
use crate::text::owned;

verus! {

/// Parses a migration file; a syntax error is reported with the file's path.
pub fn parse_statements(sql: &str, path: &str) -> (r: Result<Vec<SqlStatement>, LintError>)
    ensures
        match parsed_model(sql@) {
            Ok(models) => r matches Ok(v) && statements_view(v@) == models,
            Err(e) => r matches Err(err) && err@ == (crate::parsers::LintErrorView::Parse { path: path@, error: e }),
        },
{
    match parse_sql_statements(sql) {
        Ok(v) => Ok(v),
        Err(error) => Err(LintError::Parse { path: owned(path), error }),
    }
}

} // verus!
