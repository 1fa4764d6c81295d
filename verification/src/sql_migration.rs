//! The migration of a database: an ordered list of structural operations.

use crate::sql_schema::{
    Column, ColumnView, ForeignKey, ForeignKeyView, Index, IndexView, Table, TableView,
};
use vstd::prelude::*;

verus! {

/// One structural operation on a database. A created table comes with its columns and its
/// primary key; its indexes and foreign keys are created by steps of their own.
#[derive(Clone, Debug, PartialEq, Eq)]
pub enum SqlMigrationStep {
    CreateTable { table: Table },
    DropTable { name: String },
    AddColumn { table: String, column: Column },
    DropColumn { table: String, name: String },
    AlterColumn { table: String, previous: Column, next: Column },
    CreateIndex { table: String, index: Index },
    DropIndex { table: String, name: String },
    AddForeignKey { table: String, foreign_key: ForeignKey },
    DropForeignKey { table: String, name: String },
}

pub enum SqlStepView {
    CreateTable { table: TableView },
    DropTable { name: Seq<char> },
    AddColumn { table: Seq<char>, column: ColumnView },
    DropColumn { table: Seq<char>, name: Seq<char> },
    AlterColumn { table: Seq<char>, previous: ColumnView, next: ColumnView },
    CreateIndex { table: Seq<char>, index: IndexView },
    DropIndex { table: Seq<char>, name: Seq<char> },
    AddForeignKey { table: Seq<char>, foreign_key: ForeignKeyView },
    DropForeignKey { table: Seq<char>, name: Seq<char> },
}

impl DeepView for SqlMigrationStep {
    type V = SqlStepView;

    open spec fn deep_view(&self) -> SqlStepView {
        match self {
            SqlMigrationStep::CreateTable { table } => SqlStepView::CreateTable {
                table: table.deep_view(),
            },
            SqlMigrationStep::DropTable { name } => SqlStepView::DropTable { name: name@ },
            SqlMigrationStep::AddColumn { table, column } => SqlStepView::AddColumn {
                table: table@,
                column: column.deep_view(),
            },
            SqlMigrationStep::DropColumn { table, name } => SqlStepView::DropColumn {
                table: table@,
                name: name@,
            },
            SqlMigrationStep::AlterColumn { table, previous, next } => SqlStepView::AlterColumn {
                table: table@,
                previous: previous.deep_view(),
                next: next.deep_view(),
            },
            SqlMigrationStep::CreateIndex { table, index } => SqlStepView::CreateIndex {
                table: table@,
                index: index.deep_view(),
            },
            SqlMigrationStep::DropIndex { table, name } => SqlStepView::DropIndex {
                table: table@,
                name: name@,
            },
            SqlMigrationStep::AddForeignKey { table, foreign_key } => SqlStepView::AddForeignKey {
                table: table@,
                foreign_key: foreign_key.deep_view(),
            },
            SqlMigrationStep::DropForeignKey { table, name } => SqlStepView::DropForeignKey {
                table: table@,
                name: name@,
            },
        }
    }
}

/// An ordered list of structural operations.
#[derive(Clone, Debug, PartialEq, Eq)]
pub struct SqlMigration {
    pub steps: Vec<SqlMigrationStep>,
}

impl DeepView for SqlMigration {
    type V = Seq<SqlStepView>;

    open spec fn deep_view(&self) -> Seq<SqlStepView> {
        self.steps.deep_view()
    }
}

/// Appends one step.
pub fn push_sql_step(steps: &mut Vec<SqlMigrationStep>, step: SqlMigrationStep)
    ensures
        final(steps).deep_view() == old(steps).deep_view().push(step.deep_view()),
{
    steps.push(step);
    assert(steps.deep_view() =~= old(steps).deep_view().push(step.deep_view()));
}

} // verus!
