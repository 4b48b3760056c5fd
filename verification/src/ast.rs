//! The calls into `sqlparser`, and the verified conversion of its syntax tree into
//! [`SqlStatement`] values.

use vstd::prelude::*;
use sqlparser::ast::{AlterTableOperation, ColumnOption, ColumnOptionDef, ObjectType, Spanned, Statement, TableConstraint};
use sqlparser::dialect::PostgreSqlDialect;
use sqlparser::parser::{Parser, ParserError};
use crate::statement::{
    statements_view, AlterOperation, AlterOperationView, ColumnOptionKind, DropObject,
    SqlStatement, SqlStatementView, StatementKind, StatementKindView,
};

verus! {

#[verifier::external_type_specification]
#[verifier::external_body]
pub struct ExStatement(Statement);

#[verifier::external_type_specification]
#[verifier::external_body]
pub struct ExAlterTableOperation(AlterTableOperation);

#[verifier::external_type_specification]
#[verifier::external_body]
pub struct ExColumnOptionDef(ColumnOptionDef);

/// Why `sqlparser` refused a text; the variants are those of `sqlparser::parser::ParserError`.
#[derive(Debug)]
pub enum SqlSyntaxError {
    TokenizerError(String),
    ParserError(String),
    RecursionLimitExceeded,
}

/// The shape of a statement, as far as the lint rules tell statements apart.
#[derive(Clone, Copy, Debug, PartialEq, Eq, Structural)]
pub enum StatementShape {
    CreateIndex { concurrently: bool },
    Drop { object: DropObject },
    AlterTable,
    Other,
}

/// The shape of one `ALTER TABLE` operation.
#[derive(Clone, Copy, Debug, PartialEq, Eq, Structural)]
pub enum OperationShape {
    AddColumn,
    AddConstraint { foreign_key: bool },
    Other,
}

/// What `Parser::parse_sql` with the PostgreSQL dialect gives for a text.
pub uninterp spec fn ast_parse(sql: Seq<char>) -> Result<Seq<Statement>, SqlSyntaxError>;

/// The line on which `Spanned::span` of a statement starts.
pub uninterp spec fn ast_statement_line(stmt: Statement) -> u64;

/// The variant of a statement, with the fields that the rules read.
pub uninterp spec fn ast_statement_shape(stmt: Statement) -> StatementShape;

/// The operations of an `ALTER TABLE` statement; empty for other statements.
pub uninterp spec fn ast_alter_operations(stmt: Statement) -> Seq<AlterTableOperation>;

/// The variant of an `ALTER TABLE` operation.
pub uninterp spec fn ast_operation_shape(op: AlterTableOperation) -> OperationShape;

/// The options of the column that an `ADD COLUMN` operation adds; empty for other operations.
pub uninterp spec fn ast_column_options(op: AlterTableOperation) -> Seq<ColumnOptionDef>;

/// Whether a column option is `DEFAULT`.
pub uninterp spec fn ast_column_option_kind(opt: ColumnOptionDef) -> ColumnOptionKind;

/// Calls `sqlparser::parser::Parser::parse_sql` with `PostgreSqlDialect`. Claimed: the
/// call returns on every text, a syntax error as an `Err` (the parser and the tokenizer of
/// this `sqlparser` report every refusal through `ParserError`); the result is a function
/// of the text alone (named `ast_parse`); an error keeps the variant and the text of
/// `ParserError`.
#[verifier::external_body]
fn parse_postgres(sql: &str) -> (res: Result<Vec<Statement>, SqlSyntaxError>)
    ensures
        match ast_parse(sql@) {
            Ok(stmts) => res matches Ok(v) && v@ == stmts,
            Err(e) => res matches Err(e2) && e2 == e,
        },
{
    match Parser::parse_sql(&PostgreSqlDialect {}, sql) {
        Ok(v) => Ok(v),
        Err(ParserError::TokenizerError(s)) => Err(SqlSyntaxError::TokenizerError(s)),
        Err(ParserError::ParserError(s)) => Err(SqlSyntaxError::ParserError(s)),
        Err(ParserError::RecursionLimitExceeded) => Err(SqlSyntaxError::RecursionLimitExceeded),
    }
}

/// Calls `Spanned::span` on a statement and returns the line of its start. Claimed: the
/// line is a function of the statement alone.
#[verifier::external_body]
fn statement_line(stmt: &Statement) -> (res: u64)
    ensures
        res == ast_statement_line(*stmt),
{
    stmt.span().start.line
}

/// Tells the variants of `Statement` apart: `CreateIndex` (with its `concurrently` flag),
/// `Drop` (with its `ObjectType` told apart as table, index or other), `AlterTable`, other.
#[verifier::external_body]
fn statement_shape(stmt: &Statement) -> (res: StatementShape)
    ensures
        res == ast_statement_shape(*stmt),
{
    match stmt {
        Statement::CreateIndex(c) => StatementShape::CreateIndex { concurrently: c.concurrently },
        Statement::Drop { object_type: ObjectType::Table, .. } => StatementShape::Drop { object: DropObject::Table },
        Statement::Drop { object_type: ObjectType::Index, .. } => StatementShape::Drop { object: DropObject::Index },
        Statement::Drop { .. } => StatementShape::Drop { object: DropObject::Other },
        Statement::AlterTable(_) => StatementShape::AlterTable,
        _ => StatementShape::Other,
    }
}

/// The `operations` field of the `AlterTable` of `Statement::AlterTable`, or nothing for
/// another statement.
#[verifier::external_body]
fn alter_operations(stmt: &Statement) -> (res: &[AlterTableOperation])
    ensures
        res@ == ast_alter_operations(*stmt),
{
    match stmt {
        Statement::AlterTable(alter) => alter.operations.as_slice(),
        _ => &[],
    }
}

/// Tells the variants of `AlterTableOperation` apart: `AddColumn`, `AddConstraint` (with
/// whether the constraint is `TableConstraint::ForeignKey`), other.
#[verifier::external_body]
fn operation_shape(op: &AlterTableOperation) -> (res: OperationShape)
    ensures
        res == ast_operation_shape(*op),
{
    match op {
        AlterTableOperation::AddColumn { .. } => OperationShape::AddColumn,
        AlterTableOperation::AddConstraint { constraint: TableConstraint::ForeignKey(_), .. } => OperationShape::AddConstraint { foreign_key: true },
        AlterTableOperation::AddConstraint { .. } => OperationShape::AddConstraint { foreign_key: false },
        _ => OperationShape::Other,
    }
}

/// The `column_def.options` field of `AlterTableOperation::AddColumn`, or nothing for
/// another operation.
#[verifier::external_body]
fn column_options(op: &AlterTableOperation) -> (res: &[ColumnOptionDef])
    ensures
        res@ == ast_column_options(*op),
{
    match op {
        AlterTableOperation::AddColumn { column_def, .. } => column_def.options.as_slice(),
        _ => &[],
    }
}

/// Tells `ColumnOption::Default` apart from the other variants of a column option.
#[verifier::external_body]
fn column_option_kind(opt: &ColumnOptionDef) -> (res: ColumnOptionKind)
    ensures
        res == ast_column_option_kind(*opt),
{
    match opt.option {
        ColumnOption::Default(_) => ColumnOptionKind::Default,
        _ => ColumnOptionKind::Other,
    }
}

/// The statement model of an `ALTER TABLE` operation.
pub open spec fn operation_model(op: AlterTableOperation) -> AlterOperationView {
    match ast_operation_shape(op) {
        OperationShape::AddColumn => AlterOperationView::AddColumn {
            options: ast_column_options(op).map_values(|o: ColumnOptionDef| ast_column_option_kind(o)),
        },
        OperationShape::AddConstraint { foreign_key } => AlterOperationView::AddConstraint { foreign_key },
        OperationShape::Other => AlterOperationView::Other,
    }
}

/// The statement model of a parsed statement.
pub open spec fn statement_model(stmt: Statement) -> SqlStatementView {
    SqlStatementView {
        line: ast_statement_line(stmt),
        kind: match ast_statement_shape(stmt) {
            StatementShape::CreateIndex { concurrently } => StatementKindView::CreateIndex { concurrently },
            StatementShape::Drop { object } => StatementKindView::Drop { object },
            StatementShape::AlterTable => StatementKindView::AlterTable {
                operations: ast_alter_operations(stmt).map_values(|op: AlterTableOperation| operation_model(op)),
            },
            StatementShape::Other => StatementKindView::Other,
        },
    }
}

/// What parsing a text gives: the models of its statements in order, or the syntax error.
pub open spec fn parsed_model(sql: Seq<char>) -> Result<Seq<SqlStatementView>, SqlSyntaxError> {
    match ast_parse(sql) {
        Ok(stmts) => Ok(stmts.map_values(|s: Statement| statement_model(s))),
        Err(e) => Err(e),
    }
}

fn convert_operation(op: &AlterTableOperation) -> (res: AlterOperation)
    ensures
        res@ == operation_model(*op),
{
    match operation_shape(op) {
        OperationShape::AddColumn => {
            let defs = column_options(op);
            let mut options: Vec<ColumnOptionKind> = Vec::new();
            let mut i: usize = 0;
            while i < defs.len()
                invariant
                    i <= defs@.len(),
                    defs@ == ast_column_options(*op),
                    options@ =~= defs@.take(i as int).map_values(|o: ColumnOptionDef| ast_column_option_kind(o)),
                decreases defs@.len() - i,
            {
                options.push(column_option_kind(&defs[i]));
                i = i + 1;
            }
            assert(defs@.take(defs@.len() as int) =~= defs@);
            AlterOperation::AddColumn { options }
        }
        OperationShape::AddConstraint { foreign_key } => AlterOperation::AddConstraint { foreign_key },
        OperationShape::Other => AlterOperation::Other,
    }
}

fn convert_statement(stmt: &Statement) -> (res: SqlStatement)
    ensures
        res@ == statement_model(*stmt),
{
    let line = statement_line(stmt);
    let kind = match statement_shape(stmt) {
        StatementShape::CreateIndex { concurrently } => StatementKind::CreateIndex { concurrently },
        StatementShape::Drop { object } => StatementKind::Drop { object },
        StatementShape::AlterTable => {
            let ops = alter_operations(stmt);
            let mut operations: Vec<AlterOperation> = Vec::new();
            let mut i: usize = 0;
            while i < ops.len()
                invariant
                    i <= ops@.len(),
                    ops@ == ast_alter_operations(*stmt),
                    operations@.map_values(|op: AlterOperation| op@) =~= ops@.take(i as int).map_values(
                        |op: AlterTableOperation| operation_model(op),
                    ),
                decreases ops@.len() - i,
            {
                let op = convert_operation(&ops[i]);
                let ghost prev = operations@;
                operations.push(op);
                proof {
                    assert(operations@.map_values(|op: AlterOperation| op@) =~= prev.map_values(
                        |op: AlterOperation| op@,
                    ).push(operations@[i as int]@));
                    assert(ops@.take(i + 1) =~= ops@.take(i as int).push(ops@[i as int]));
                }
                i = i + 1;
            }
            assert(ops@.take(ops@.len() as int) =~= ops@);
            StatementKind::AlterTable { operations }
        },
        StatementShape::Other => StatementKind::Other,
    };
    SqlStatement { line, kind }
}

/// Parses a migration text with the PostgreSQL dialect of `sqlparser` into statement
/// models, in order.
pub fn parse_sql_statements(sql: &str) -> (res: Result<Vec<SqlStatement>, SqlSyntaxError>)
    ensures
        match parsed_model(sql@) {
            Ok(models) => res matches Ok(v) && statements_view(v@) == models,
            Err(e) => res matches Err(e2) && e2 == e,
        },
{
    match parse_postgres(sql) {
        Ok(stmts) => {
            let mut out: Vec<SqlStatement> = Vec::new();
            let mut i: usize = 0;
            while i < stmts.len()
                invariant
                    i <= stmts@.len(),
                    statements_view(out@) =~= stmts@.take(i as int).map_values(|s: Statement| statement_model(s)),
                decreases stmts@.len() - i,
            {
                let s = convert_statement(&stmts[i]);
                let ghost prev = out@;
                out.push(s);
                proof {
                    assert(statements_view(out@) =~= statements_view(prev).push(out@[i as int]@));
                    assert(stmts@.take(i + 1) =~= stmts@.take(i as int).push(stmts@[i as int]));
                }
                i = i + 1;
            }
            assert(stmts@.take(stmts@.len() as int) =~= stmts@);
            Ok(out)
        },
        Err(e) => Err(e),
    }
}

} // verus!

verus! {

/// The model of a parsed `ALTER TABLE` keeps every one of its operations, in order.
pub proof fn alter_table_model_keeps_every_operation(stmt: Statement)
    requires
        ast_statement_shape(stmt) == StatementShape::AlterTable,
    ensures
        statement_model(stmt).kind matches StatementKindView::AlterTable { operations } && {
            &&& operations.len() == ast_alter_operations(stmt).len()
            &&& forall|i: int| 0 <= i < operations.len() ==> operations[i] == operation_model(
                #[trigger] ast_alter_operations(stmt)[i],
            )
        },
{
}

/// The model of a parsed `ADD COLUMN` keeps the kind of every option of the column, in
/// order.
pub proof fn add_column_model_keeps_every_option(op: AlterTableOperation)
    requires
        ast_operation_shape(op) == OperationShape::AddColumn,
    ensures
        operation_model(op) matches AlterOperationView::AddColumn { options } && {
            &&& options.len() == ast_column_options(op).len()
            &&& forall|i: int| 0 <= i < options.len() ==> options[i] == ast_column_option_kind(
                #[trigger] ast_column_options(op)[i],
            )
        },
{
}

} // verus!
