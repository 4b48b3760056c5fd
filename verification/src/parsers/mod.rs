//! Parsers for migration files, and the choice of a parser by file extension.

pub mod postgres_sql;

use vstd::prelude::*;
use crate::ast::SqlSyntaxError;
use crate::model::{findings_view, Finding, FindingView};
use crate::paths::{path_extension, std_path_extension};
use crate::text::{concat, debug_list, debug_str, debug_str_list, owned, std_debug_str, std_lowercase, str_eq, to_lowercase};
use postgres_sql::{postgres_lint, PostgresSqlParser};
use postgres_sql::lint::PARSER_ID;

verus! {

/// Why a migration file could not be linted.
#[derive(Debug)]
pub enum LintError {
    /// The file is not valid SQL for the parser.
    Parse { path: String, error: SqlSyntaxError },
    /// No parser claims the file's extension.
    NoParser { extension: String, path: String, known_parsers: Vec<&'static str> },
}

/// The mathematical value of a [`LintError`].
pub enum LintErrorView {
    Parse { path: Seq<char>, error: SqlSyntaxError },
    NoParser { extension: Seq<char>, path: Seq<char>, known_parsers: Seq<Seq<char>> },
}

impl View for LintError {
    type V = LintErrorView;

    open spec fn view(&self) -> LintErrorView {
        match self {
            LintError::Parse { path, error } => LintErrorView::Parse { path: path@, error: *error },
            LintError::NoParser { extension, path, known_parsers } => LintErrorView::NoParser {
                extension: extension@,
                path: path@,
                known_parsers: known_parsers@.map_values(|s: &str| s@),
            },
        }
    }
}

/// The mathematical value of the outcome of linting a file.
pub open spec fn lint_result_view(r: Result<Vec<Finding>, LintError>) -> Result<Seq<FindingView>, LintErrorView> {
    match r {
        Ok(v) => Ok(findings_view(v@)),
        Err(e) => Err(e@),
    }
}

/// The message of a syntax error, as `sqlparser` displays it.
pub open spec fn syntax_error_message(e: SqlSyntaxError) -> Seq<char> {
    match e {
        SqlSyntaxError::TokenizerError(s) => "sql parser error: "@ + s@,
        SqlSyntaxError::ParserError(s) => "sql parser error: "@ + s@,
        SqlSyntaxError::RecursionLimitExceeded => "sql parser error: recursion limit exceeded"@,
    }
}

/// The message of a lint error.
pub open spec fn lint_error_message(e: LintErrorView) -> Seq<char> {
    match e {
        LintErrorView::Parse { path, error } => "failed to parse "@ + path
            + " as PostgreSQL-oriented SQL (sqlparser): "@ + syntax_error_message(error)
            + "\nHint: fix syntax or split statements; this tool does not execute SQL."@,
        LintErrorView::NoParser { extension, path, known_parsers } => "no parser registered for extension "@
            + std_debug_str(extension) + " (path: "@ + path + "); known parsers: "@
            + debug_list(known_parsers),
    }
}

impl SqlSyntaxError {
    /// The error as `sqlparser` displays it.
    pub fn message(&self) -> (r: String)
        ensures
            r@ == syntax_error_message(*self),
    {
        match self {
            SqlSyntaxError::TokenizerError(s) => concat("sql parser error: ", s.as_str()),
            SqlSyntaxError::ParserError(s) => concat("sql parser error: ", s.as_str()),
            SqlSyntaxError::RecursionLimitExceeded => owned("sql parser error: recursion limit exceeded"),
        }
    }
}

impl LintError {
    /// The error as a sentence for the user.
    pub fn message(&self) -> (r: String)
        ensures
            r@ == lint_error_message(self@),
    {
        match self {
            LintError::Parse { path, error } => {
                let mut r = concat("failed to parse ", path.as_str());
                r.append(" as PostgreSQL-oriented SQL (sqlparser): ");
                let m = error.message();
                r.append(m.as_str());
                r.append("\nHint: fix syntax or split statements; this tool does not execute SQL.");
                r
            },
            LintError::NoParser { extension, path, known_parsers } => {
                let mut r = owned("no parser registered for extension ");
                let e = debug_str(extension.as_str());
                r.append(e.as_str());
                r.append(" (path: ");
                r.append(path.as_str());
                r.append("); known parsers: ");
                let k = debug_str_list(known_parsers.as_slice());
                r.append(k.as_str());
                r
            },
        }
    }
}

/// A parser that lints migration files of some kinds.
pub trait MigrationParser: Send + Sync {
    /// The parser's id.
    spec fn spec_id(&self) -> Seq<char>;

    /// The file extensions (with their dot, in lower case) that the parser reads.
    spec fn spec_extensions(&self) -> Seq<Seq<char>>;

    /// What linting a file gives.
    spec fn spec_lint(&self, path: Seq<char>, source: Seq<char>) -> Result<Seq<FindingView>, LintErrorView>;

    fn id(&self) -> (r: &'static str)
        ensures
            r@ == self.spec_id(),
    ;

    fn extensions(&self) -> (r: &'static [&'static str])
        ensures
            r@.map_values(|s: &str| s@) == self.spec_extensions(),
    ;

    fn lint(&self, path: &str, source: &str) -> (r: Result<Vec<Finding>, LintError>)
        ensures
            lint_result_view(r) == self.spec_lint(path@, source@),
    ;
}

/// The parsers that the tool knows, in the order in which they are tried.
pub fn default_parsers() -> (r: Vec<PostgresSqlParser>)
    ensures
        r@ == seq![PostgresSqlParser],
{
    let r: Vec<PostgresSqlParser> = vec![PostgresSqlParser];
    assert(r@ =~= seq![PostgresSqlParser]);
    r
}

/// The extension of a path as parsers name it: a dot and the extension in lower case.
pub open spec fn spec_extension_of(path: Seq<char>) -> Option<Seq<char>> {
    match std_path_extension(path) {
        Some(e) => Some(seq!['.'] + std_lowercase(e)),
        None => None,
    }
}

/// The extension of `path` as parsers name it (`.sql` for `a/b.SQL`), if it has one.
pub fn extension_of(path: &str) -> (r: Option<String>)
    ensures
        match spec_extension_of(path@) {
            Some(e) => r matches Some(s) && s@ == e,
            None => r is None,
        },
{
    match path_extension(path) {
        Some(e) => {
            let lower = to_lowercase(e.as_str());
            let r = concat(".", lower.as_str());
            proof { reveal_strlit("."); }
            assert(r@ =~= seq!['.'] + std_lowercase(e@));
            Some(r)
        },
        None => None,
    }
}

/// The extension under which parsers are looked up: that of the path, or empty.
pub open spec fn lookup_extension(path: Seq<char>) -> Seq<char> {
    match spec_extension_of(path) {
        Some(e) => e,
        None => Seq::empty(),
    }
}

/// Whether `p` claims the extension `ext`.
pub open spec fn claims<P: MigrationParser>(p: P, ext: Seq<char>) -> bool {
    p.spec_extensions().contains(ext)
}

/// `i` is the first parser of `ps` that claims `ext`.
pub open spec fn is_first_claiming<P: MigrationParser>(ps: Seq<P>, ext: Seq<char>, i: int) -> bool {
    &&& 0 <= i < ps.len()
    &&& claims(ps[i], ext)
    &&& forall|j: int| 0 <= j < i ==> !claims(#[trigger] ps[j], ext)
}

/// What linting a file with a list of parsers gives: the first parser that claims the
/// file's extension lints it; when none does, the file is refused.
pub open spec fn spec_lint_file<P: MigrationParser>(
    path: Seq<char>,
    source: Seq<char>,
    ps: Seq<P>,
) -> Result<Seq<FindingView>, LintErrorView> {
    let ext = lookup_extension(path);
    if exists|i: int| is_first_claiming(ps, ext, i) {
        let i = choose|i: int| is_first_claiming(ps, ext, i);
        ps[i].spec_lint(path, source)
    } else {
        Err(LintErrorView::NoParser {
            extension: ext,
            path,
            known_parsers: ps.map_values(|p: P| p.spec_id()),
        })
    }
}

/// With the tool's parsers, a file whose extension is `.sql` in any case goes to the
/// `postgres-sql` parser.
pub proof fn sql_files_go_to_postgres(path: Seq<char>, source: Seq<char>)
    requires
        lookup_extension(path) == ".sql"@,
    ensures
        spec_lint_file(path, source, seq![PostgresSqlParser]) == postgres_lint(path, source),
{
    let ps = seq![PostgresSqlParser];
    assert(ps[0].spec_extensions()[0] == ".sql"@);
    assert(is_first_claiming(ps, lookup_extension(path), 0));
    let i = choose|i: int| is_first_claiming(ps, lookup_extension(path), i);
    assert(i == 0);
}

/// With the tool's parsers, a file of any other extension, or of none, is refused, and the
/// refusal names its extension, its path and the known parser.
pub proof fn other_files_are_refused(path: Seq<char>, source: Seq<char>)
    requires
        lookup_extension(path) != ".sql"@,
    ensures
        spec_lint_file(path, source, seq![PostgresSqlParser]) == Err::<Seq<FindingView>, LintErrorView>(
            LintErrorView::NoParser {
                extension: lookup_extension(path),
                path,
                known_parsers: seq![PARSER_ID@],
            },
        ),
{
    let ps = seq![PostgresSqlParser];
    assert(ps[0].spec_extensions() =~= seq![".sql"@]);
    assert(!exists|i: int| is_first_claiming(ps, lookup_extension(path), i));
    assert(ps.map_values(|p: PostgresSqlParser| p.spec_id()) =~= seq![PARSER_ID@]);
}

fn claims_extension(exts: &[&str], ext: &str) -> (r: bool)
    ensures
        r == exts@.map_values(|s: &str| s@).contains(ext@),
{
    let ghost names = exts@.map_values(|s: &str| s@);
    let mut i: usize = 0;
    while i < exts.len()
        invariant
            i <= exts@.len(),
            names == exts@.map_values(|s: &str| s@),
            forall|j: int| 0 <= j < i ==> names[j] != ext@,
        decreases exts@.len() - i,
    {
        if str_eq(exts[i], ext) {
            assert(names[i as int] == ext@);
            return true;
        }
        i = i + 1;
    }
    false
}

/// Lints a file with the first parser of `parsers` that claims its extension.
pub fn lint_file<P: MigrationParser>(path: &str, source: &str, parsers: &[P]) -> (r: Result<Vec<Finding>, LintError>)
    ensures
        lint_result_view(r) == spec_lint_file(path@, source@, parsers@),
{
    let ext = match extension_of(path) {
        Some(e) => e,
        None => String::new(),
    };
    assert(ext@ == lookup_extension(path@));
    let mut i: usize = 0;
    while i < parsers.len()
        invariant
            i <= parsers@.len(),
            ext@ == lookup_extension(path@),
            forall|j: int| 0 <= j < i ==> !claims(#[trigger] parsers@[j], ext@),
        decreases parsers@.len() - i,
    {
        let p = &parsers[i];
        let exts = p.extensions();
        if claims_extension(exts, ext.as_str()) {
            proof {
                assert(is_first_claiming(parsers@, ext@, i as int));
                let k = choose|k: int| is_first_claiming(parsers@, ext@, k);
                assert(k == i) by {
                    if k < i {
                        assert(!claims(parsers@[k], ext@));
                    } else if k > i {
                        assert(!claims(parsers@[i as int], ext@));
                    }
                }
            }
            return p.lint(path, source);
        }
        i = i + 1;
    }
    let mut ids: Vec<&'static str> = Vec::new();
    let mut j: usize = 0;
    while j < parsers.len()
        invariant
            j <= parsers@.len(),
            ids@.map_values(|s: &str| s@) =~= parsers@.take(j as int).map_values(|p: P| p.spec_id()),
        decreases parsers@.len() - j,
    {
        let id = parsers[j].id();
        let ghost prev = ids@;
        ids.push(id);
        proof {
            assert(ids@.map_values(|s: &str| s@) =~= prev.map_values(|s: &str| s@).push(id@));
            assert(parsers@.take(j + 1) =~= parsers@.take(j as int).push(parsers@[j as int]));
        }
        j = j + 1;
    }
    assert(parsers@.take(parsers@.len() as int) =~= parsers@);
    assert(!exists|k: int| is_first_claiming(parsers@, ext@, k));
    Err(LintError::NoParser { extension: ext, path: owned(path), known_parsers: ids })
}

/// Lints a file with the parsers that the tool knows.
pub fn lint_file_with_defaults(path: &str, source: &str) -> (r: Result<Vec<Finding>, LintError>)
    ensures
        lint_result_view(r) == spec_lint_file(path@, source@, seq![PostgresSqlParser]),
{
    let parsers = default_parsers();
    lint_file(path, source, parsers.as_slice())
}

} // verus!
