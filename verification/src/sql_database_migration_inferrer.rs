//! The inferrer of database migrations: from the state of a database and the schema that
//! is declared next to the operations that lead from the one to the other.

use crate::ast::{SchemaAst, SchemaView};

use crate::names::{matched, unmatched};
use crate::sql_migration::{SqlMigration, SqlMigrationStep, SqlStepView};
use crate::sql_migration_connector::SqlFamily;
use crate::sql_schema::{ColumnView, ForeignKeyView, IndexView, SqlSchema, SqlSchemaView, TableView};
use crate::sql_schema_calculator::{calculate_sql_schema, sql_schema_of};
use crate::sql_schema_differ::{
    added_column_steps, added_foreign_key_steps, added_foreign_key_steps_in, altered_column_steps,
    column_steps, columns_steps, created_index_steps, created_index_steps_in,
    created_table_steps, diff_schemas, dropped_column_steps, dropped_foreign_key_steps,
    dropped_foreign_key_steps_in, dropped_index_steps, dropped_index_steps_in,
    dropped_table_steps, schema_steps,
};
use crate::steps::{MigrationStep, StepView};
use vstd::prelude::*;

verus! {

/// What a migration starts from: the schema that was declared before, or the structure
/// that was read from the live database. The second keeps what the database holds beyond
/// any declaration.
pub enum CurrentState {
    Declarative(SchemaAst),
    Introspected(SqlSchema),
}

pub enum CurrentStateView {
    Declarative(SchemaView),
    Introspected(SqlSchemaView),
}

impl DeepView for CurrentState {
    type V = CurrentStateView;

    open spec fn deep_view(&self) -> CurrentStateView {
        match self {
            CurrentState::Declarative(schema) => CurrentStateView::Declarative(schema.deep_view()),
            CurrentState::Introspected(structure) => CurrentStateView::Introspected(
                structure.deep_view(),
            ),
        }
    }
}

/// The structure of the database in a state.
pub open spec fn structure_of(state: CurrentStateView) -> SqlSchemaView {
    match state {
        CurrentStateView::Declarative(schema) => sql_schema_of(schema),
        CurrentStateView::Introspected(structure) => structure,
    }
}

/// The operations of a migration. Where the declaration did not change, the database is
/// left as it is.
pub open spec fn inferred_steps(
    current: CurrentStateView,
    next: SchemaView,
    steps: Seq<StepView>,
    family: SqlFamily,
) -> Seq<SqlStepView> {
    if steps.len() == 0 {
        Seq::empty()
    } else {
        schema_steps(structure_of(current), sql_schema_of(next), family)
    }
}

/// The place of an operation in the order of a migration.
pub open spec fn phase_of(step: SqlStepView) -> int {
    match step {
        SqlStepView::DropForeignKey { .. } => 1,
        SqlStepView::DropIndex { .. } => 2,
        SqlStepView::CreateTable { .. } => 3,
        SqlStepView::AddColumn { .. } => 4,
        SqlStepView::AlterColumn { .. } => 4,
        SqlStepView::DropColumn { .. } => 4,
        SqlStepView::DropTable { .. } => 5,
        SqlStepView::CreateIndex { .. } => 6,
        SqlStepView::AddForeignKey { .. } => 7,
    }
}

pub open spec fn all_in_phase(steps: Seq<SqlStepView>, phase: int) -> bool {
    forall|i: int| 0 <= i < steps.len() ==> phase_of(#[trigger] steps[i]) == phase
}

/// No operation comes before one of an earlier phase.
pub open spec fn phases_ascend(steps: Seq<SqlStepView>) -> bool {
    forall|i: int, j: int|
        0 <= i < j < steps.len() ==> phase_of(#[trigger] steps[i]) <= phase_of(#[trigger] steps[j])
}

/// Indexes and foreign keys are created only after every table and every column is there.
pub open spec fn constraints_follow_creations(steps: Seq<SqlStepView>) -> bool {
    forall|i: int, j: int|
        0 <= i < steps.len() && 0 <= j < steps.len() && ((#[trigger] steps[i]) is CreateIndex
            || steps[i] is AddForeignKey) && ((#[trigger] steps[j]) is CreateTable
            || steps[j] is AddColumn) ==> j < i
}

/// A foreign key is dropped before any table or column is.
pub open spec fn foreign_keys_fall_first(steps: Seq<SqlStepView>) -> bool {
    forall|i: int, j: int|
        0 <= i < steps.len() && 0 <= j < steps.len() && (#[trigger] steps[i]) is DropForeignKey
            && ((#[trigger] steps[j]) is DropTable || steps[j] is DropColumn) ==> i < j
}

proof fn lemma_dropped_foreign_keys_phase_in(
    table: TableView,
    foreign_keys: Seq<ForeignKeyView>,
    next: Seq<TableView>,
)
    ensures
        all_in_phase(dropped_foreign_key_steps_in(table, foreign_keys, next), 1),
    decreases foreign_keys.len(),
{
    if foreign_keys.len() > 0 {
        lemma_dropped_foreign_keys_phase_in(table, foreign_keys.drop_last(), next);
    }
}

proof fn lemma_dropped_foreign_keys_phase(current: Seq<TableView>, next: Seq<TableView>)
    ensures
        all_in_phase(dropped_foreign_key_steps(current, next), 1),
    decreases current.len(),
{
    if current.len() > 0 {
        lemma_dropped_foreign_keys_phase(current.drop_last(), next);
        lemma_dropped_foreign_keys_phase_in(current.last(), current.last().foreign_keys, next);
    }
}

proof fn lemma_dropped_indexes_phase_in(
    table: Seq<char>,
    indexes: Seq<IndexView>,
    next_indexes: Seq<IndexView>,
)
    ensures
        all_in_phase(dropped_index_steps_in(table, indexes, next_indexes), 2),
    decreases indexes.len(),
{
    if indexes.len() > 0 {
        lemma_dropped_indexes_phase_in(table, indexes.drop_last(), next_indexes);
    }
}

proof fn lemma_dropped_indexes_phase(pairs: Seq<(TableView, TableView)>)
    ensures
        all_in_phase(dropped_index_steps(pairs), 2),
    decreases pairs.len(),
{
    if pairs.len() > 0 {
        lemma_dropped_indexes_phase(pairs.drop_last());
        lemma_dropped_indexes_phase_in(
            pairs.last().0.name,
            pairs.last().0.indexes,
            pairs.last().1.indexes,
        );
    }
}

proof fn lemma_created_tables_phase(tables: Seq<TableView>)
    ensures
        all_in_phase(created_table_steps(tables), 3),
    decreases tables.len(),
{
    if tables.len() > 0 {
        lemma_created_tables_phase(tables.drop_last());
    }
}

proof fn lemma_added_columns_phase(table: Seq<char>, columns: Seq<ColumnView>)
    ensures
        all_in_phase(added_column_steps(table, columns), 4),
    decreases columns.len(),
{
    if columns.len() > 0 {
        lemma_added_columns_phase(table, columns.drop_last());
    }
}

proof fn lemma_dropped_columns_phase(table: Seq<char>, columns: Seq<ColumnView>)
    ensures
        all_in_phase(dropped_column_steps(table, columns), 4),
    decreases columns.len(),
{
    if columns.len() > 0 {
        lemma_dropped_columns_phase(table, columns.drop_last());
    }
}

proof fn lemma_altered_columns_phase(
    family: SqlFamily,
    table: Seq<char>,
    pairs: Seq<(ColumnView, ColumnView)>,
)
    ensures
        all_in_phase(altered_column_steps(family, table, pairs), 4),
    decreases pairs.len(),
{
    if pairs.len() > 0 {
        lemma_altered_columns_phase(family, table, pairs.drop_last());
    }
}

proof fn lemma_columns_phase(family: SqlFamily, pairs: Seq<(TableView, TableView)>)
    ensures
        all_in_phase(columns_steps(family, pairs), 4),
    decreases pairs.len(),
{
    if pairs.len() > 0 {
        lemma_columns_phase(family, pairs.drop_last());
        let pair = pairs.last();
        lemma_added_columns_phase(pair.0.name, unmatched(pair.1.columns, pair.0.columns));
        lemma_altered_columns_phase(family, pair.0.name, matched(pair.0.columns, pair.1.columns));
        lemma_dropped_columns_phase(pair.0.name, unmatched(pair.0.columns, pair.1.columns));
        assert(all_in_phase(column_steps(family, pair), 4));
    }
}

proof fn lemma_dropped_tables_phase(tables: Seq<TableView>)
    ensures
        all_in_phase(dropped_table_steps(tables), 5),
    decreases tables.len(),
{
    if tables.len() > 0 {
        lemma_dropped_tables_phase(tables.drop_last());
    }
}

proof fn lemma_created_indexes_phase_in(
    table: Seq<char>,
    indexes: Seq<IndexView>,
    current_indexes: Seq<IndexView>,
)
    ensures
        all_in_phase(created_index_steps_in(table, indexes, current_indexes), 6),
    decreases indexes.len(),
{
    if indexes.len() > 0 {
        lemma_created_indexes_phase_in(table, indexes.drop_last(), current_indexes);
    }
}

proof fn lemma_created_indexes_phase(next: Seq<TableView>, current: Seq<TableView>)
    ensures
        all_in_phase(created_index_steps(next, current), 6),
    decreases next.len(),
{
    if next.len() > 0 {
        lemma_created_indexes_phase(next.drop_last(), current);
        lemma_created_indexes_phase_in(
            next.last().name,
            next.last().indexes,
            crate::sql_schema_differ::indexes_in(current, next.last().name),
        );
    }
}

proof fn lemma_added_foreign_keys_phase_in(
    table: Seq<char>,
    foreign_keys: Seq<ForeignKeyView>,
    current_keys: Seq<ForeignKeyView>,
)
    ensures
        all_in_phase(added_foreign_key_steps_in(table, foreign_keys, current_keys), 7),
    decreases foreign_keys.len(),
{
    if foreign_keys.len() > 0 {
        lemma_added_foreign_keys_phase_in(table, foreign_keys.drop_last(), current_keys);
    }
}

proof fn lemma_added_foreign_keys_phase(next: Seq<TableView>, current: Seq<TableView>)
    ensures
        all_in_phase(added_foreign_key_steps(next, current), 7),
    decreases next.len(),
{
    if next.len() > 0 {
        lemma_added_foreign_keys_phase(next.drop_last(), current);
        lemma_added_foreign_keys_phase_in(
            next.last().name,
            next.last().foreign_keys,
            crate::sql_schema_differ::foreign_keys_in(current, next.last().name),
        );
    }
}

/// The operations from one structure to another come in the order of their phases, so
/// that what an operation needs is there when it runs: tables and columns before the
/// indexes and foreign keys on them, and no table is dropped while a foreign key to be
/// dropped is left.
pub proof fn lemma_schema_steps_are_ordered(
    current: SqlSchemaView,
    next: SqlSchemaView,
    family: SqlFamily,
)
    ensures
        phases_ascend(schema_steps(current, next, family)),
        constraints_follow_creations(schema_steps(current, next, family)),
        foreign_keys_fall_first(schema_steps(current, next, family)),
{
    let pairs = matched(current.tables, next.tables);
    let p1 = dropped_foreign_key_steps(current.tables, next.tables);
    let p2 = dropped_index_steps(pairs);
    let p3 = created_table_steps(unmatched(next.tables, current.tables));
    let p4 = columns_steps(family, pairs);
    let p5 = dropped_table_steps(unmatched(current.tables, next.tables));
    let p6 = created_index_steps(next.tables, current.tables);
    let p7 = added_foreign_key_steps(next.tables, current.tables);
    lemma_dropped_foreign_keys_phase(current.tables, next.tables);
    lemma_dropped_indexes_phase(pairs);
    lemma_created_tables_phase(unmatched(next.tables, current.tables));
    lemma_columns_phase(family, pairs);
    lemma_dropped_tables_phase(unmatched(current.tables, next.tables));
    lemma_created_indexes_phase(next.tables, current.tables);
    lemma_added_foreign_keys_phase(next.tables, current.tables);
    let steps = schema_steps(current, next, family);
    let n1 = p1.len() as int;
    let n2 = n1 + p2.len();
    let n3 = n2 + p3.len();
    let n4 = n3 + p4.len();
    let n5 = n4 + p5.len();
    let n6 = n5 + p6.len();
    assert(steps.len() == n6 + p7.len());
    assert forall|i: int| 0 <= i < steps.len() implies phase_of(#[trigger] steps[i]) == (if i
        < n1 {
        1int
    } else if i < n2 {
        2
    } else if i < n3 {
        3
    } else if i < n4 {
        4
    } else if i < n5 {
        5
    } else if i < n6 {
        6
    } else {
        7
    }) by {
        if i < n1 {
            assert(steps[i] == p1[i]);
        } else if i < n2 {
            assert(steps[i] == p2[i - n1]);
        } else if i < n3 {
            assert(steps[i] == p3[i - n2]);
        } else if i < n4 {
            assert(steps[i] == p4[i - n3]);
        } else if i < n5 {
            assert(steps[i] == p5[i - n4]);
        } else if i < n6 {
            assert(steps[i] == p6[i - n5]);
        } else {
            assert(steps[i] == p7[i - n6]);
        }
    }
    assert(phases_ascend(steps));
    lemma_ascending_phases_order(steps);
}

/// In ascending phases, constraints follow creations and foreign keys fall first.
pub proof fn lemma_ascending_phases_order(steps: Seq<SqlStepView>)
    requires
        phases_ascend(steps),
    ensures
        constraints_follow_creations(steps),
        foreign_keys_fall_first(steps),
{
    assert forall|i: int, j: int|
        0 <= i < steps.len() && 0 <= j < steps.len() && ((#[trigger] steps[i]) is CreateIndex
            || steps[i] is AddForeignKey) && ((#[trigger] steps[j]) is CreateTable
            || steps[j] is AddColumn) implies j < i by {
        if i < j {
            assert(phase_of(steps[i]) <= phase_of(steps[j]));
        }
    }
    assert forall|i: int, j: int|
        0 <= i < steps.len() && 0 <= j < steps.len() && (#[trigger] steps[i]) is DropForeignKey
            && ((#[trigger] steps[j]) is DropTable || steps[j] is DropColumn) implies i < j by {
        if j < i {
            assert(phase_of(steps[j]) <= phase_of(steps[i]));
        }
    }
}

/// Infers the migration of the database from its current state to the schema that is
/// declared next. `steps` are the steps on the declaration that lead there.
pub fn infer(
    current_state: &CurrentState,
    next_schema: &SchemaAst,
    steps: &Vec<MigrationStep>,
    family: SqlFamily,
) -> (migration: SqlMigration)
    ensures
        migration.deep_view() == inferred_steps(
            current_state.deep_view(),
            next_schema.deep_view(),
            steps.deep_view(),
            family,
        ),
        phases_ascend(migration.deep_view()),
        constraints_follow_creations(migration.deep_view()),
        foreign_keys_fall_first(migration.deep_view()),
{
    if steps.len() == 0 {
        let none: Vec<SqlMigrationStep> = Vec::new();
        assert(none.deep_view() =~= Seq::<SqlStepView>::empty());
        return SqlMigration { steps: none };
    }
    let next = calculate_sql_schema(next_schema);
    proof {
        lemma_schema_steps_are_ordered(
            structure_of(current_state.deep_view()),
            next.deep_view(),
            family,
        );
    }
    let operations = match current_state {
        CurrentState::Declarative(schema) => {
            let current = calculate_sql_schema(schema);
            diff_schemas(&current, &next, family)
        },
        CurrentState::Introspected(current) => diff_schemas(current, &next, family),
    };
    SqlMigration { steps: operations }
}

} // verus!
