//! The check of a migration for steps that can lose data. The check only advises: it never
//! stops a migration.

use crate::names::{lemma_take_all, lemma_take_step};
use crate::sql_migration::{SqlMigration, SqlMigrationStep, SqlStepView};
use crate::sql_schema::ColumnType;
use vstd::prelude::*;
use vstd::string::StringExecFns;

verus! {

/// How a step can lose data.
#[derive(Clone, Copy, Debug, PartialEq, Eq, Structural)]
pub enum DestructiveChange {
    DropsTable,
    DropsColumn,
    NarrowsColumnType,
    AddsRequiredColumnWithoutDefault,
    RemovesDefault,
}

/// How grave a destructive change is.
#[derive(Clone, Copy, Debug, PartialEq, Eq, Structural)]
pub enum Severity {
    /// Rows or values are lost.
    DataLoss,
    /// The step, or a later write, can fail on the rows at hand.
    MightFail,
}

#[derive(Clone, Debug, PartialEq, Eq)]
pub struct DestructiveChangeWarning {
    /// The position of the step in the migration.
    pub step: usize,
    pub severity: Severity,
    pub message: String,
}

pub struct WarningView {
    pub step: nat,
    pub severity: Severity,
    pub message: Seq<char>,
}

impl DeepView for DestructiveChangeWarning {
    type V = WarningView;

    open spec fn deep_view(&self) -> WarningView {
        WarningView { step: self.step as nat, severity: self.severity, message: self.message@ }
    }
}

/// Every value of the type `previous` is a value of the type `next`.
pub open spec fn holds_all(next: ColumnType, previous: ColumnType) -> bool {
    next.family == previous.family && match (previous.size, next.size) {
        (_, None) => true,
        (Some(before), Some(after)) => before <= after,
        (None, Some(_)) => false,
    }
}

/// How the step can lose data, if it can. A table that the migration finds empty takes a
/// required column without a default.
pub open spec fn destructive_change_of(step: SqlStepView, non_empty_tables: Seq<Seq<char>>) -> Option<
    DestructiveChange,
> {
    match step {
        SqlStepView::DropTable { .. } => Some(DestructiveChange::DropsTable),
        SqlStepView::DropColumn { .. } => Some(DestructiveChange::DropsColumn),
        SqlStepView::AlterColumn { previous, next, .. } => if !holds_all(next.tpe, previous.tpe) {
            Some(DestructiveChange::NarrowsColumnType)
        } else if previous.default is Some && next.default is None {
            Some(DestructiveChange::RemovesDefault)
        } else {
            None
        },
        SqlStepView::AddColumn { table, column } => if column.required && column.default is None
            && non_empty_tables.contains(table) {
            Some(DestructiveChange::AddsRequiredColumnWithoutDefault)
        } else {
            None
        },
        _ => None,
    }
}

pub open spec fn severity_of(change: DestructiveChange) -> Severity {
    match change {
        DestructiveChange::DropsTable => Severity::DataLoss,
        DestructiveChange::DropsColumn => Severity::DataLoss,
        DestructiveChange::NarrowsColumnType => Severity::DataLoss,
        DestructiveChange::AddsRequiredColumnWithoutDefault => Severity::MightFail,
        DestructiveChange::RemovesDefault => Severity::MightFail,
    }
}

pub open spec fn message_of(change: DestructiveChange) -> Seq<char> {
    match change {
        DestructiveChange::DropsTable => "The table is dropped with all its rows."@,
        DestructiveChange::DropsColumn => "The column is dropped with all its values."@,
        DestructiveChange::NarrowsColumnType => "The new column type cannot hold every value of the previous one."@,
        DestructiveChange::AddsRequiredColumnWithoutDefault => "A required column without a default is added to a table that has rows."@,
        DestructiveChange::RemovesDefault => "The default of the column is removed."@,
    }
}

/// The warnings for a list of steps, in the order of the steps.
pub open spec fn warnings_of(
    steps: Seq<SqlStepView>,
    non_empty_tables: Seq<Seq<char>>,
) -> Seq<WarningView>
    decreases steps.len(),
{
    if steps.len() == 0 {
        Seq::empty()
    } else {
        let before = warnings_of(steps.drop_last(), non_empty_tables);
        match destructive_change_of(steps.last(), non_empty_tables) {
            Some(change) => before.push(
                WarningView {
                    step: (steps.len() - 1) as nat,
                    severity: severity_of(change),
                    message: message_of(change),
                },
            ),
            None => before,
        }
    }
}

/// Whether the type `next` can hold every value of the type `previous`.
pub fn type_holds_all(next: &ColumnType, previous: &ColumnType) -> (holds: bool)
    ensures
        holds == holds_all(*next, *previous),
{
    next.family == previous.family && match (previous.size, next.size) {
        (_, None) => true,
        (Some(before), Some(after)) => before <= after,
        (None, Some(_)) => false,
    }
}

/// Whether one of `names` is `name`.
pub fn is_listed(names: &Vec<String>, name: &String) -> (listed: bool)
    ensures
        listed == names.deep_view().contains(name@),
{
    let mut i: usize = 0;
    while i < names.len()
        invariant
            i <= names.len(),
            forall|k: int| 0 <= k < i ==> names.deep_view()[k] != name@,
        decreases names.len() - i,
    {
        if names[i] == *name {
            assert(names.deep_view()[i as int] == name@);
            return true;
        }
        i = i + 1;
    }
    false
}

/// Classifies one step.
pub fn destructive_change(step: &SqlMigrationStep, non_empty_tables: &Vec<String>) -> (change:
    Option<DestructiveChange>)
    ensures
        change == destructive_change_of(step.deep_view(), non_empty_tables.deep_view()),
{
    match step {
        SqlMigrationStep::DropTable { .. } => Some(DestructiveChange::DropsTable),
        SqlMigrationStep::DropColumn { .. } => Some(DestructiveChange::DropsColumn),
        SqlMigrationStep::AlterColumn { previous, next, .. } => {
            if !type_holds_all(&next.tpe, &previous.tpe) {
                Some(DestructiveChange::NarrowsColumnType)
            } else if previous.default.is_some() && next.default.is_none() {
                Some(DestructiveChange::RemovesDefault)
            } else {
                None
            }
        },
        SqlMigrationStep::AddColumn { table, column } => {
            if column.required && column.default.is_none() && is_listed(non_empty_tables, table) {
                Some(DestructiveChange::AddsRequiredColumnWithoutDefault)
            } else {
                None
            }
        },
        _ => None,
    }
}

/// The text of a warning.
pub fn message(change: DestructiveChange) -> (text: String)
    ensures
        text@ == message_of(change),
{
    match change {
        DestructiveChange::DropsTable => String::from_str("The table is dropped with all its rows."),
        DestructiveChange::DropsColumn => String::from_str(
            "The column is dropped with all its values.",
        ),
        DestructiveChange::NarrowsColumnType => String::from_str(
            "The new column type cannot hold every value of the previous one.",
        ),
        DestructiveChange::AddsRequiredColumnWithoutDefault => String::from_str(
            "A required column without a default is added to a table that has rows.",
        ),
        DestructiveChange::RemovesDefault => String::from_str(
            "The default of the column is removed.",
        ),
    }
}

/// How grave a destructive change is.

pub fn severity(change: DestructiveChange) -> (severity: Severity)
    ensures
        severity == severity_of(change),
{
    match change {
        DestructiveChange::DropsTable => Severity::DataLoss,
        DestructiveChange::DropsColumn => Severity::DataLoss,
        DestructiveChange::NarrowsColumnType => Severity::DataLoss,
        DestructiveChange::AddsRequiredColumnWithoutDefault => Severity::MightFail,
        DestructiveChange::RemovesDefault => Severity::MightFail,
    }
}

/// Checks a migration: one warning for each step that drops a table or a column, narrows a
/// column's type, removes a column's default, or adds a required column without a default to
/// a table that has rows. Every other step passes without a warning.
pub fn check(migration: &SqlMigration, non_empty_tables: &Vec<String>) -> (warnings: Vec<
    DestructiveChangeWarning,
>)
    ensures
        warnings.deep_view() == warnings_of(
            migration.deep_view(),
            non_empty_tables.deep_view(),
        ),
{
    let mut warnings: Vec<DestructiveChangeWarning> = Vec::new();
    let ghost views = migration.steps.deep_view();
    let mut i: usize = 0;
    while i < migration.steps.len()
        invariant
            i <= migration.steps.len(),
            views == migration.steps.deep_view(),
            warnings.deep_view() == warnings_of(views.take(i as int), non_empty_tables.deep_view()),
        decreases migration.steps.len() - i,
    {
        proof {
            lemma_take_step(views, i as int);
        }
        match destructive_change(&migration.steps[i], non_empty_tables) {
            Some(change) => {
                let ghost before = warnings.deep_view();
                let warning = DestructiveChangeWarning {
                    step: i,
                    severity: severity(change),
                    message: message(change),
                };
                warnings.push(warning);
                assert(warnings.deep_view() =~= before.push(warning.deep_view()));
            },
            None => {},
        }
        i = i + 1;
    }
    proof {
        lemma_take_all(views);
    }
    warnings
}

} // verus!
