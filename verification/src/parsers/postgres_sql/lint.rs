//! The lint rules of the `postgres-sql` parser, on statement models.

use vstd::prelude::*;
use crate::model::{findings_view, Finding, FindingView, Severity};
use crate::rules::postgres::{PostgresRule, REQUIRE_CONCURRENT_INDEX};
use crate::statement::{
    AlterOperation, AlterOperationView, ColumnOptionKind, DropObject, SqlStatement,
    SqlStatementView, StatementKind, StatementKindView,
};
use crate::text::owned;

verus! {

pub const PARSER_ID: &'static str = "postgres-sql";

pub const CREATE_INDEX_MESSAGE: &'static str = "CREATE INDEX without CONCURRENTLY can lock writes on large tables; use CREATE INDEX CONCURRENTLY in a separate transaction.";

pub const DROP_TABLE_MESSAGE: &'static str = "DROP TABLE can cause downtime or break running app versions; prefer expand/contract or multi-step rollout.";

pub const DROP_INDEX_MESSAGE: &'static str = "DROP INDEX can block queries; on PostgreSQL prefer CONCURRENTLY variants where applicable.";

pub const DROP_MESSAGE: &'static str = "DROP can cause downtime or break running app versions; review carefully before deploy.";

pub const ADD_COLUMN_DEFAULT_MESSAGE: &'static str = "ADD COLUMN with DEFAULT may rewrite the whole table on PostgreSQL < 11 or be expensive on large tables; consider add nullable → backfill → set default.";

pub const FOREIGN_KEY_MESSAGE: &'static str = "ADD FOREIGN KEY often validates all rows and can lock; prefer NOT VALID then VALIDATE CONSTRAINT in a follow-up migration.";

/// A rule that a statement breaks, with the message to report.
pub struct RuleHit {
    pub rule: PostgresRule,
    pub message: &'static str,
}

/// The mathematical value of a [`RuleHit`].
pub struct RuleHitView {
    pub rule: PostgresRule,
    pub message: Seq<char>,
}

impl View for RuleHit {
    type V = RuleHitView;

    open spec fn view(&self) -> RuleHitView {
        RuleHitView { rule: self.rule, message: self.message@ }
    }
}

pub open spec fn hits_view(v: Seq<RuleHit>) -> Seq<RuleHitView> {
    v.map_values(|h: RuleHit| h@)
}

pub open spec fn hit(rule: PostgresRule, message: &'static str) -> RuleHitView {
    RuleHitView { rule, message: message@ }
}

/// The message of `ban-drop` for each kind of dropped object.
pub open spec fn drop_message(object: DropObject) -> Seq<char> {
    match object {
        DropObject::Table => DROP_TABLE_MESSAGE@,
        DropObject::Index => DROP_INDEX_MESSAGE@,
        DropObject::Other => DROP_MESSAGE@,
    }
}

/// The rules that one `ALTER TABLE` operation breaks.
pub open spec fn operation_rule_hits(op: AlterOperationView) -> Seq<RuleHitView> {
    match op {
        AlterOperationView::AddColumn { options } => if options.contains(ColumnOptionKind::Default) {
            seq![hit(PostgresRule::AddingFieldWithDefault, ADD_COLUMN_DEFAULT_MESSAGE)]
        } else {
            seq![]
        },
        AlterOperationView::AddConstraint { foreign_key } => if foreign_key {
            seq![hit(PostgresRule::PreferForeignKeyNotValid, FOREIGN_KEY_MESSAGE)]
        } else {
            seq![]
        },
        AlterOperationView::Other => seq![],
    }
}

/// The rules that the operations of an `ALTER TABLE` break, operation by operation.
pub open spec fn operations_rule_hits(ops: Seq<AlterOperationView>) -> Seq<RuleHitView>
    decreases ops.len(),
{
    if ops.len() == 0 {
        seq![]
    } else {
        operations_rule_hits(ops.drop_last()) + operation_rule_hits(ops.last())
    }
}

/// The rules that a statement breaks, in the order in which they are reported.
pub open spec fn statement_rule_hits(stmt: SqlStatementView) -> Seq<RuleHitView> {
    match stmt.kind {
        StatementKindView::CreateIndex { concurrently } => if !concurrently {
            seq![hit(PostgresRule::RequireConcurrentIndex, CREATE_INDEX_MESSAGE)]
        } else {
            seq![]
        },
        StatementKindView::Drop { object } => seq![
            RuleHitView { rule: PostgresRule::BanDrop, message: drop_message(object) },
        ],
        StatementKindView::AlterTable { operations } => operations_rule_hits(operations),
        StatementKindView::Other => seq![],
    }
}

/// The 1-based line reported for a statement: none when the line is unknown (0) or does
/// not fit in a `u32`, the line otherwise.
pub open spec fn reported_line(raw: u64) -> Option<u32> {
    if raw == 0 || raw > u32::MAX {
        None
    } else {
        Some(raw as u32)
    }
}

/// The finding that reports a rule hit of a statement.
pub open spec fn hit_finding(h: RuleHitView, file: Seq<char>, line: Option<u32>) -> FindingView {
    FindingView {
        rule_id: h.rule.spec_id(),
        severity: h.rule.spec_severity(),
        message: h.message,
        file,
        line,
        parser_id: PARSER_ID@,
    }
}

/// The findings of one statement of the file `file`.
pub open spec fn statement_findings(stmt: SqlStatementView, file: Seq<char>) -> Seq<FindingView> {
    statement_rule_hits(stmt).map_values(|h: RuleHitView| hit_finding(h, file, reported_line(stmt.line)))
}

/// A `CREATE INDEX` without `CONCURRENTLY` gives exactly one error, of the rule
/// `require-concurrent-index`; with `CONCURRENTLY` it gives nothing.
pub proof fn create_index_requires_concurrently(stmt: SqlStatementView, file: Seq<char>)
    requires
        stmt.kind matches StatementKindView::CreateIndex { .. },
    ensures
        stmt.kind matches StatementKindView::CreateIndex { concurrently } && (if concurrently {
            statement_findings(stmt, file).len() == 0
        } else {
            statement_findings(stmt, file).len() == 1 && statement_findings(stmt, file)[0].rule_id
                == REQUIRE_CONCURRENT_INDEX@ && statement_findings(stmt, file)[0].severity == Severity::Error
        }),
{
}

/// Every `DROP` gives exactly one warning, of the rule `ban-drop`, worded for the kind of
/// object dropped.
pub proof fn drop_always_warns(stmt: SqlStatementView, file: Seq<char>, object: DropObject)
    requires
        stmt.kind == (StatementKindView::Drop { object }),
    ensures
        statement_findings(stmt, file).len() == 1,
        statement_findings(stmt, file)[0].rule_id == PostgresRule::BanDrop.spec_id(),
        statement_findings(stmt, file)[0].severity == Severity::Warning,
        statement_findings(stmt, file)[0].message == drop_message(object),
{
}

/// A statement other than `CREATE INDEX`, `DROP` and `ALTER TABLE` gives no finding.
pub proof fn other_statements_are_clean(stmt: SqlStatementView, file: Seq<char>)
    requires
        stmt.kind == StatementKindView::Other,
    ensures
        statement_findings(stmt, file).len() == 0,
{
}

/// An `ALTER TABLE` gives, operation by operation, one warning for each column added with a
/// `DEFAULT` and one for each foreign key added, and nothing for other operations.
pub proof fn alter_table_findings_follow_operations(ops: Seq<AlterOperationView>, more: Seq<AlterOperationView>)
    ensures
        operations_rule_hits(ops + more) == operations_rule_hits(ops) + operations_rule_hits(more),
    decreases more.len(),
{
    if more.len() == 0 {
        assert(ops + more =~= ops);
        assert(operations_rule_hits(more) =~= Seq::<RuleHitView>::empty());
        assert(operations_rule_hits(ops) + operations_rule_hits(more) =~= operations_rule_hits(ops));
    } else {
        alter_table_findings_follow_operations(ops, more.drop_last());
        assert((ops + more).drop_last() =~= ops + more.drop_last());
        assert((ops + more).last() == more.last());
        assert(operations_rule_hits(ops) + operations_rule_hits(more) =~= operations_rule_hits(ops)
            + operations_rule_hits(more.drop_last()) + operation_rule_hits(more.last()));
    }
}

/// Every finding of a statement names the file, the statement's 1-based line (none when
/// unknown) and the parser; it is an error exactly when its rule is `require-concurrent-index`.
pub proof fn statement_findings_are_located(stmt: SqlStatementView, file: Seq<char>)
    ensures
        forall|i: int| 0 <= i < statement_findings(stmt, file).len() ==> {
            let f = #[trigger] statement_findings(stmt, file)[i];
            &&& f.file == file
            &&& f.line == reported_line(stmt.line)
            &&& (f.line matches Some(l) ==> 1 <= l && l == stmt.line)
            &&& f.parser_id == PARSER_ID@
            &&& (f.severity == Severity::Error <==> f.rule_id == REQUIRE_CONCURRENT_INDEX@)
        },
{
    assert forall|i: int| 0 <= i < statement_findings(stmt, file).len() implies {
        let f = #[trigger] statement_findings(stmt, file)[i];
        &&& f.file == file
        &&& f.line == reported_line(stmt.line)
        &&& (f.line matches Some(l) ==> 1 <= l && l == stmt.line)
        &&& f.parser_id == PARSER_ID@
        &&& (f.severity == Severity::Error <==> f.rule_id == REQUIRE_CONCURRENT_INDEX@)
    } by {
        let h = statement_rule_hits(stmt)[i];
        reveal_strlit("postgres-sql/require-concurrent-index");
        reveal_strlit("postgres-sql/ban-drop");
        reveal_strlit("postgres-sql/adding-field-with-default");
        reveal_strlit("postgres-sql/prefer-foreign-key-not-valid");
        assert(REQUIRE_CONCURRENT_INDEX@.len() != crate::rules::postgres::BAN_DROP@.len());
        assert(REQUIRE_CONCURRENT_INDEX@.len() != crate::rules::postgres::ADDING_FIELD_WITH_DEFAULT@.len());
        assert(REQUIRE_CONCURRENT_INDEX@.len() != crate::rules::postgres::PREFER_FOREIGN_KEY_NOT_VALID@.len());
    }
}

/// The line to report for a statement that starts on the raw line `line`.
pub fn stmt_line(line: u64) -> (r: Option<u32>)
    ensures
        r == reported_line(line),
{
    if line == 0 || line > 4294967295 {
        None
    } else {
        Some(line as u32)
    }
}

fn has_default_option(options: &Vec<ColumnOptionKind>) -> (r: bool)
    ensures
        r == options@.contains(ColumnOptionKind::Default),
{
    let mut i: usize = 0;
    while i < options.len()
        invariant
            i <= options@.len(),
            forall|j: int| 0 <= j < i ==> options@[j] != ColumnOptionKind::Default,
        decreases options@.len() - i,
    {
        if options[i] == ColumnOptionKind::Default {
            assert(options@[i as int] == ColumnOptionKind::Default);
            return true;
        }
        i = i + 1;
    }
    false
}

fn operation_hit(op: &AlterOperation) -> (r: Option<RuleHit>)
    ensures
        operation_rule_hits(op@) == match r {
            Some(h) => seq![h@],
            None => Seq::<RuleHitView>::empty(),
        },
{
    match op {
        AlterOperation::AddColumn { options } => {
            if has_default_option(options) {
                Some(RuleHit { rule: PostgresRule::AddingFieldWithDefault, message: ADD_COLUMN_DEFAULT_MESSAGE })
            } else {
                None
            }
        },
        AlterOperation::AddConstraint { foreign_key } => {
            if *foreign_key {
                Some(RuleHit { rule: PostgresRule::PreferForeignKeyNotValid, message: FOREIGN_KEY_MESSAGE })
            } else {
                None
            }
        },
        AlterOperation::Other => None,
    }
}

/// The rules that a statement breaks, with their messages, in report order.
pub fn rule_hits(stmt: &SqlStatement) -> (r: Vec<RuleHit>)
    ensures
        hits_view(r@) == statement_rule_hits(stmt@),
{
    let mut out: Vec<RuleHit> = Vec::new();
    match &stmt.kind {
        StatementKind::CreateIndex { concurrently } => {
            if !*concurrently {
                out.push(RuleHit { rule: PostgresRule::RequireConcurrentIndex, message: CREATE_INDEX_MESSAGE });
            }
            assert(hits_view(out@) =~= statement_rule_hits(stmt@));
        },
        StatementKind::Drop { object } => {
            let msg = match object {
                DropObject::Table => DROP_TABLE_MESSAGE,
                DropObject::Index => DROP_INDEX_MESSAGE,
                DropObject::Other => DROP_MESSAGE,
            };
            out.push(RuleHit { rule: PostgresRule::BanDrop, message: msg });
            assert(hits_view(out@) =~= statement_rule_hits(stmt@));
        },
        StatementKind::AlterTable { operations } => {
            let ghost ops = operations@.map_values(|op: AlterOperation| op@);
            let mut i: usize = 0;
            while i < operations.len()
                invariant
                    i <= operations@.len(),
                    ops == operations@.map_values(|op: AlterOperation| op@),
                    hits_view(out@) == operations_rule_hits(ops.take(i as int)),
                decreases operations@.len() - i,
            {
                let h = operation_hit(&operations[i]);
                let ghost prev = out@;
                match h {
                    Some(h) => {
                        out.push(h);
                    },
                    None => {},
                }
                proof {
                    assert(ops.take(i + 1).drop_last() =~= ops.take(i as int));
                    assert(hits_view(out@) =~= hits_view(prev) + operation_rule_hits(ops[i as int]));
                }
                i = i + 1;
            }
            assert(ops.take(operations@.len() as int) =~= ops);
        },
        StatementKind::Other => {
            assert(hits_view(out@) =~= statement_rule_hits(stmt@));
        },
    }
    out
}

/// The findings of one statement of the file `file`.
pub fn lint_statement(stmt: &SqlStatement, file: &str) -> (out: Vec<Finding>)
    ensures
        findings_view(out@) == statement_findings(stmt@, file@),
{
    let hits = rule_hits(stmt);
    let line = stmt_line(stmt.line);
    let mut out: Vec<Finding> = Vec::new();
    let mut i: usize = 0;
    while i < hits.len()
        invariant
            i <= hits@.len(),
            hits_view(hits@) == statement_rule_hits(stmt@),
            line == reported_line(stmt@.line),
            findings_view(out@) =~= hits_view(hits@).take(i as int).map_values(
                |h: RuleHitView| hit_finding(h, file@, line),
            ),
        decreases hits@.len() - i,
    {
        let h = &hits[i];
        let f = Finding {
            rule_id: h.rule.id(),
            severity: h.rule.severity(),
            message: owned(h.message),
            file: owned(file),
            line,
            parser_id: PARSER_ID,
        };
        let ghost prev = out@;
        out.push(f);
        proof {
            assert(findings_view(out@) =~= findings_view(prev).push(f@));
            assert(hits_view(hits@).take(i + 1) =~= hits_view(hits@).take(i as int).push(hits@[i as int]@));
        }
        i = i + 1;
    }
    assert(hits_view(hits@).take(hits@.len() as int) =~= hits_view(hits@));
    out
}

} // verus!

verus! {

/// An `ADD COLUMN` breaks `adding-field-with-default` exactly when one of the column's
/// options, wherever it stands among them, is `DEFAULT`: it then gives one warning of that
/// rule, and no other hit.
pub proof fn add_column_default_anywhere_is_flagged(options: Seq<ColumnOptionKind>)
    ensures
        forall|i: int| 0 <= i < options.len() && options[i] == ColumnOptionKind::Default ==> {
            let hits = operation_rule_hits(AlterOperationView::AddColumn { options });
            &&& hits.len() == 1
            &&& hits[0].rule == PostgresRule::AddingFieldWithDefault
            &&& hits[0].message == ADD_COLUMN_DEFAULT_MESSAGE@
            &&& hits[0].rule.spec_severity() == Severity::Warning
        },
        (forall|i: int| 0 <= i < options.len() ==> options[i] != ColumnOptionKind::Default)
            ==> operation_rule_hits(AlterOperationView::AddColumn { options }).len() == 0,
{
    assert forall|i: int| 0 <= i < options.len() && options[i] == ColumnOptionKind::Default implies {
        let hits = operation_rule_hits(AlterOperationView::AddColumn { options });
        &&& hits.len() == 1
        &&& hits[0].rule == PostgresRule::AddingFieldWithDefault
        &&& hits[0].message == ADD_COLUMN_DEFAULT_MESSAGE@
        &&& hits[0].rule.spec_severity() == Severity::Warning
    } by {
        assert(options.contains(ColumnOptionKind::Default));
    }
}

/// Every operation of an `ALTER TABLE` is checked: the hits of the statement are those of
/// the operations before operation `i`, then the hits of operation `i` itself, then those
/// of the operations after it.
pub proof fn every_alter_operation_is_checked(ops: Seq<AlterOperationView>, i: int)
    requires
        0 <= i < ops.len(),
    ensures
        operations_rule_hits(ops) == operations_rule_hits(ops.take(i)) + operation_rule_hits(ops[i])
            + operations_rule_hits(ops.skip(i + 1)),
{
    let a = ops.take(i);
    let b = seq![ops[i]];
    let c = ops.skip(i + 1);
    assert(ops =~= a + b + c);
    alter_table_findings_follow_operations(a + b, c);
    alter_table_findings_follow_operations(a, b);
    assert(b.drop_last() =~= Seq::<AlterOperationView>::empty());
    assert(operations_rule_hits(b.drop_last()) == Seq::<RuleHitView>::empty());
    assert(b.last() == ops[i]);
    assert(operations_rule_hits(b) =~= operation_rule_hits(ops[i]));
}

} // verus!
