//! What the lint rules read of a parsed SQL statement, as plain values.

use vstd::prelude::*;

verus! {

/// The kind of object that a `DROP` statement removes.
#[derive(Clone, Copy, Debug, PartialEq, Eq, Structural)]
pub enum DropObject {
    Table,
    Index,
    Other,
}

/// The kind of an option in a column definition.
#[derive(Clone, Copy, Debug, PartialEq, Eq, Structural)]
pub enum ColumnOptionKind {
    /// `DEFAULT <expr>`
    Default,
    Other,
}

/// One operation of an `ALTER TABLE` statement.
#[derive(Debug)]
pub enum AlterOperation {
    /// `ADD [COLUMN] <column_def>`, with the kinds of the column's options in order.
    AddColumn { options: Vec<ColumnOptionKind> },
    /// `ADD <table_constraint>`; `foreign_key` tells whether it is a `FOREIGN KEY`.
    AddConstraint { foreign_key: bool },
    Other,
}

/// What kind of statement it is, with the parts that the lint rules read.
#[derive(Debug)]
pub enum StatementKind {
    CreateIndex { concurrently: bool },
    Drop { object: DropObject },
    AlterTable { operations: Vec<AlterOperation> },
    Other,
}

/// One statement of a migration file.
#[derive(Debug)]
pub struct SqlStatement {
    /// The line on which the statement starts, 1-based; 0 when unknown.
    pub line: u64,
    pub kind: StatementKind,
}

/// The mathematical value of an [`AlterOperation`].
pub enum AlterOperationView {
    AddColumn { options: Seq<ColumnOptionKind> },
    AddConstraint { foreign_key: bool },
    Other,
}

/// The mathematical value of a [`StatementKind`].
pub enum StatementKindView {
    CreateIndex { concurrently: bool },
    Drop { object: DropObject },
    AlterTable { operations: Seq<AlterOperationView> },
    Other,
}

/// The mathematical value of a [`SqlStatement`].
pub struct SqlStatementView {
    pub line: u64,
    pub kind: StatementKindView,
}

impl View for AlterOperation {
    type V = AlterOperationView;

    open spec fn view(&self) -> AlterOperationView {
        match self {
            AlterOperation::AddColumn { options } => AlterOperationView::AddColumn {
                options: options@,
            },
            AlterOperation::AddConstraint { foreign_key } => AlterOperationView::AddConstraint {
                foreign_key: *foreign_key,
            },
            AlterOperation::Other => AlterOperationView::Other,
        }
    }
}

impl View for StatementKind {
    type V = StatementKindView;

    open spec fn view(&self) -> StatementKindView {
        match self {
            StatementKind::CreateIndex { concurrently } => StatementKindView::CreateIndex {
                concurrently: *concurrently,
            },
            StatementKind::Drop { object } => StatementKindView::Drop { object: *object },
            StatementKind::AlterTable { operations } => StatementKindView::AlterTable {
                operations: operations@.map_values(|op: AlterOperation| op@),
            },
            StatementKind::Other => StatementKindView::Other,
        }
    }
}

impl View for SqlStatement {
    type V = SqlStatementView;

    open spec fn view(&self) -> SqlStatementView {
        SqlStatementView { line: self.line, kind: self.kind@ }
    }
}

/// The views of a sequence of statements.
pub open spec fn statements_view(v: Seq<SqlStatement>) -> Seq<SqlStatementView> {
    v.map_values(|s: SqlStatement| s@)
}

} // verus!
