//! The operations that lead from one database structure to another, in an order in which
//! they can be run: what depends on something is dropped before it and created after it.

use crate::keyed::item_of;
use crate::names::{
    borrow_all, has_key, lemma_first_index_unique, lemma_take_all, lemma_take_step, matched,
    matched_items, position_of, unmatched, unmatched_items, views_of, Paired,
};
use crate::sql_migration::{push_sql_step, SqlMigrationStep, SqlStepView};
use crate::sql_migration_connector::SqlFamily;
use crate::sql_schema::{
    ColumnView,
    ForeignKeyView,
    IndexView,
    SqlSchema,
    SqlSchemaView,
    Table,
    TableView,
};
use crate::steps::Diffable;
use vstd::prelude::*;

verus! {

/// Whether the engines of the family can change a column where it stands. SQLite cannot:
/// there a changed column is dropped and added again.
pub open spec fn alters_in_place(family: SqlFamily) -> bool {
    family != SqlFamily::Sqlite
}

/// A foreign key goes where the table it refers to goes, or where its own table stays
/// without it.
pub open spec fn drops_foreign_key(
    table: TableView,
    foreign_key: ForeignKeyView,
    next: Seq<TableView>,
) -> bool {
    ||| !has_key(next, foreign_key.referenced_table)
    ||| has_key(next, table.name) && !item_of(next, table.name).foreign_keys.contains(foreign_key)
}

pub open spec fn dropped_foreign_key_steps_in(
    table: TableView,
    foreign_keys: Seq<ForeignKeyView>,
    next: Seq<TableView>,
) -> Seq<SqlStepView>
    decreases foreign_keys.len(),
{
    if foreign_keys.len() == 0 {
        Seq::empty()
    } else if drops_foreign_key(table, foreign_keys.last(), next) {
        dropped_foreign_key_steps_in(table, foreign_keys.drop_last(), next).push(
            SqlStepView::DropForeignKey { table: table.name, name: foreign_keys.last().name },
        )
    } else {
        dropped_foreign_key_steps_in(table, foreign_keys.drop_last(), next)
    }
}

pub open spec fn dropped_foreign_key_steps(
    current: Seq<TableView>,
    next: Seq<TableView>,
) -> Seq<SqlStepView>
    decreases current.len(),
{
    if current.len() == 0 {
        Seq::empty()
    } else {
        dropped_foreign_key_steps(current.drop_last(), next) + dropped_foreign_key_steps_in(
            current.last(),
            current.last().foreign_keys,
            next,
        )
    }
}

pub open spec fn dropped_index_steps_in(
    table: Seq<char>,
    indexes: Seq<IndexView>,
    next_indexes: Seq<IndexView>,
) -> Seq<SqlStepView>
    decreases indexes.len(),
{
    if indexes.len() == 0 {
        Seq::empty()
    } else if !next_indexes.contains(indexes.last()) {
        dropped_index_steps_in(table, indexes.drop_last(), next_indexes).push(
            SqlStepView::DropIndex { table, name: indexes.last().name },
        )
    } else {
        dropped_index_steps_in(table, indexes.drop_last(), next_indexes)
    }
}

/// The indexes of tables that stay which the next structure lacks.
pub open spec fn dropped_index_steps(pairs: Seq<(TableView, TableView)>) -> Seq<SqlStepView>
    decreases pairs.len(),
{
    if pairs.len() == 0 {
        Seq::empty()
    } else {
        dropped_index_steps(pairs.drop_last()) + dropped_index_steps_in(
            pairs.last().0.name,
            pairs.last().0.indexes,
            pairs.last().1.indexes,
        )
    }
}

pub open spec fn created_table_steps(tables: Seq<TableView>) -> Seq<SqlStepView>
    decreases tables.len(),
{
    if tables.len() == 0 {
        Seq::empty()
    } else {
        created_table_steps(tables.drop_last()).push(
            SqlStepView::CreateTable { table: tables.last() },
        )
    }
}

pub open spec fn dropped_table_steps(tables: Seq<TableView>) -> Seq<SqlStepView>
    decreases tables.len(),
{
    if tables.len() == 0 {
        Seq::empty()
    } else {
        dropped_table_steps(tables.drop_last()).push(
            SqlStepView::DropTable { name: tables.last().name },
        )
    }
}

pub open spec fn added_column_steps(table: Seq<char>, columns: Seq<ColumnView>) -> Seq<SqlStepView>
    decreases columns.len(),
{
    if columns.len() == 0 {
        Seq::empty()
    } else {
        added_column_steps(table, columns.drop_last()).push(
            SqlStepView::AddColumn { table, column: columns.last() },
        )
    }
}

pub open spec fn dropped_column_steps(table: Seq<char>, columns: Seq<ColumnView>) -> Seq<
    SqlStepView,
>
    decreases columns.len(),
{
    if columns.len() == 0 {
        Seq::empty()
    } else {
        dropped_column_steps(table, columns.drop_last()).push(
            SqlStepView::DropColumn { table, name: columns.last().name },
        )
    }
}

/// The steps for a column that both structures have: none where it is the same, one
/// alteration where the engine can alter, else a drop and an addition.
pub open spec fn altered_column_step(
    family: SqlFamily,
    table: Seq<char>,
    pair: (ColumnView, ColumnView),
) -> Seq<SqlStepView> {
    if pair.0 == pair.1 {
        Seq::empty()
    } else if alters_in_place(family) {
        seq![SqlStepView::AlterColumn { table, previous: pair.0, next: pair.1 }]
    } else {
        seq![
            SqlStepView::DropColumn { table, name: pair.0.name },
            SqlStepView::AddColumn { table, column: pair.1 },
        ]
    }
}

pub open spec fn altered_column_steps(
    family: SqlFamily,
    table: Seq<char>,
    pairs: Seq<(ColumnView, ColumnView)>,
) -> Seq<SqlStepView>
    decreases pairs.len(),
{
    if pairs.len() == 0 {
        Seq::empty()
    } else {
        altered_column_steps(family, table, pairs.drop_last()) + altered_column_step(
            family,
            table,
            pairs.last(),
        )
    }
}

/// The steps on the columns of a table that stays: added columns, then changed ones, then
/// dropped ones.
pub open spec fn column_steps(family: SqlFamily, pair: (TableView, TableView)) -> Seq<SqlStepView> {
    added_column_steps(pair.0.name, unmatched(pair.1.columns, pair.0.columns))
        + altered_column_steps(family, pair.0.name, matched(pair.0.columns, pair.1.columns))
        + dropped_column_steps(pair.0.name, unmatched(pair.0.columns, pair.1.columns))
}

pub open spec fn columns_steps(family: SqlFamily, pairs: Seq<(TableView, TableView)>) -> Seq<
    SqlStepView,
>
    decreases pairs.len(),
{
    if pairs.len() == 0 {
        Seq::empty()
    } else {
        columns_steps(family, pairs.drop_last()) + column_steps(family, pairs.last())
    }
}

/// The indexes that a table has now, if it is there.
pub open spec fn indexes_in(tables: Seq<TableView>, name: Seq<char>) -> Seq<IndexView> {
    if has_key(tables, name) {
        item_of(tables, name).indexes
    } else {
        Seq::empty()
    }
}

/// The foreign keys that a table has now, if it is there.
pub open spec fn foreign_keys_in(tables: Seq<TableView>, name: Seq<char>) -> Seq<ForeignKeyView> {
    if has_key(tables, name) {
        item_of(tables, name).foreign_keys
    } else {
        Seq::empty()
    }
}

pub open spec fn created_index_steps_in(
    table: Seq<char>,
    indexes: Seq<IndexView>,
    current_indexes: Seq<IndexView>,
) -> Seq<SqlStepView>
    decreases indexes.len(),
{
    if indexes.len() == 0 {
        Seq::empty()
    } else if !current_indexes.contains(indexes.last()) {
        created_index_steps_in(table, indexes.drop_last(), current_indexes).push(
            SqlStepView::CreateIndex { table, index: indexes.last() },
        )
    } else {
        created_index_steps_in(table, indexes.drop_last(), current_indexes)
    }
}

/// The indexes of the next structure that the current one lacks.
pub open spec fn created_index_steps(next: Seq<TableView>, current: Seq<TableView>) -> Seq<
    SqlStepView,
>
    decreases next.len(),
{
    if next.len() == 0 {
        Seq::empty()
    } else {
        created_index_steps(next.drop_last(), current) + created_index_steps_in(
            next.last().name,
            next.last().indexes,
            indexes_in(current, next.last().name),
        )
    }
}

pub open spec fn added_foreign_key_steps_in(
    table: Seq<char>,
    foreign_keys: Seq<ForeignKeyView>,
    current_keys: Seq<ForeignKeyView>,
) -> Seq<SqlStepView>
    decreases foreign_keys.len(),
{
    if foreign_keys.len() == 0 {
        Seq::empty()
    } else if !current_keys.contains(foreign_keys.last()) {
        added_foreign_key_steps_in(table, foreign_keys.drop_last(), current_keys).push(
            SqlStepView::AddForeignKey { table, foreign_key: foreign_keys.last() },
        )
    } else {
        added_foreign_key_steps_in(table, foreign_keys.drop_last(), current_keys)
    }
}

/// The foreign keys of the next structure that the current one lacks.
pub open spec fn added_foreign_key_steps(next: Seq<TableView>, current: Seq<TableView>) -> Seq<
    SqlStepView,
>
    decreases next.len(),
{
    if next.len() == 0 {
        Seq::empty()
    } else {
        added_foreign_key_steps(next.drop_last(), current) + added_foreign_key_steps_in(
            next.last().name,
            next.last().foreign_keys,
            foreign_keys_in(current, next.last().name),
        )
    }
}

/// The steps from one structure to another: foreign keys are dropped first and indexes
/// after them; then tables are created, columns are added, changed and dropped, and tables
/// are dropped; indexes are created then, and foreign keys are added last.
pub open spec fn schema_steps(
    current: SqlSchemaView,
    next: SqlSchemaView,
    family: SqlFamily,
) -> Seq<SqlStepView> {
    dropped_foreign_key_steps(current.tables, next.tables) + dropped_index_steps(
        matched(current.tables, next.tables),
    ) + created_table_steps(unmatched(next.tables, current.tables)) + columns_steps(
        family,
        matched(current.tables, next.tables),
    ) + dropped_table_steps(unmatched(current.tables, next.tables)) + created_index_steps(
        next.tables,
        current.tables,
    ) + added_foreign_key_steps(next.tables, current.tables)
}

/// Whether one of `items` is the same as `item`.
pub fn contains_same<T: Diffable>(items: &Vec<T>, item: &T) -> (found: bool)
    ensures
        found == items.deep_view().contains(item.deep_view()),
{
    let mut i: usize = 0;
    while i < items.len()
        invariant
            i <= items.len(),
            forall|j: int| 0 <= j < i ==> items.deep_view()[j] != item.deep_view(),
        decreases items.len() - i,
    {
        if items[i].same(item) {
            assert(items.deep_view()[i as int] == item.deep_view());
            return true;
        }
        i = i + 1;
    }
    false
}

/// The table called `name`, if it is there.
pub fn find_table<'a>(tables: &Vec<&'a Table>, name: &String) -> (found: Option<&'a Table>)
    ensures
        found.deep_view() == (if has_key(views_of(tables@), name@) {
            Some(item_of(views_of(tables@), name@))
        } else {
            None
        }),
{
    match position_of(tables, name) {
        Some(i) => {
            proof {
                lemma_first_index_unique(views_of(tables@), name@, i as int);
                assert(views_of(tables@)[i as int].name == name@);
            }
            Some(tables[i])
        },
        None => None,
    }
}

/// Appends the drop of every foreign key that goes.

pub fn push_dropped_foreign_keys(
    steps: &mut Vec<SqlMigrationStep>,
    current: &Vec<&Table>,
    next: &Vec<&Table>,
)
    ensures
        final(steps).deep_view() == old(steps).deep_view() + dropped_foreign_key_steps(
            views_of(current@),
            views_of(next@),
        ),
{
    let ghost start = steps.deep_view();
    let ghost views = views_of(current@);
    let ghost next_views = views_of(next@);
    let mut i: usize = 0;
    while i < current.len()
        invariant
            i <= current.len(),
            views == views_of(current@),
            next_views == views_of(next@),
            steps.deep_view() == start + dropped_foreign_key_steps(views.take(i as int), next_views),
        decreases current.len() - i,
    {
        let table = current[i];
        proof {
            lemma_take_step(views, i as int);
        }
        let ghost before = steps.deep_view();
        let ghost keys = table.deep_view().foreign_keys;
        let stays = find_table(next, &table.name);
        let mut j: usize = 0;
        while j < table.foreign_keys.len()
            invariant
                j <= table.foreign_keys.len(),
                keys == table.deep_view().foreign_keys,
                next_views == views_of(next@),
                stays.deep_view() == (if has_key(next_views, table.name@) {
                    Some(item_of(next_views, table.name@))
                } else {
                    None
                }),
                steps.deep_view() == before + dropped_foreign_key_steps_in(
                    table.deep_view(),
                    keys.take(j as int),
                    next_views,
                ),
            decreases table.foreign_keys.len() - j,
        {
            let foreign_key = &table.foreign_keys[j];
            proof {
                lemma_take_step(keys, j as int);
            }
            let target_stays = find_table(next, &foreign_key.referenced_table).is_some();
            let kept = match stays {
                Some(next_table) => contains_same(&next_table.foreign_keys, foreign_key),
                None => true,
            };
            if !target_stays || !kept {
                push_sql_step(
                    steps,
                    SqlMigrationStep::DropForeignKey {
                        table: table.name.clone(),
                        name: foreign_key.name.clone(),
                    },
                );
            }
            assert(steps.deep_view() =~= before + dropped_foreign_key_steps_in(
                table.deep_view(),
                keys.take(j + 1),
                next_views,
            ));
            j = j + 1;
        }
        proof {
            lemma_take_all(keys);
        }
        assert(steps.deep_view() =~= start + dropped_foreign_key_steps(
            views.take(i + 1),
            next_views,
        ));
        i = i + 1;
    }
    proof {
        lemma_take_all(views);
    }
}

/// Appends the drop of every index that a table that stays loses.

pub fn push_dropped_indexes(steps: &mut Vec<SqlMigrationStep>, pairs: &Vec<Paired<'_, Table>>)
    ensures
        final(steps).deep_view() == old(steps).deep_view() + dropped_index_steps(
            pairs.deep_view(),
        ),
{
    let ghost start = steps.deep_view();
    let ghost views = pairs.deep_view();
    let mut i: usize = 0;
    while i < pairs.len()
        invariant
            i <= pairs.len(),
            views == pairs.deep_view(),
            steps.deep_view() == start + dropped_index_steps(views.take(i as int)),
        decreases pairs.len() - i,
    {
        let previous = pairs[i].previous;
        let next = pairs[i].next;
        proof {
            lemma_take_step(views, i as int);
        }
        let ghost before = steps.deep_view();
        let ghost indexes = previous.deep_view().indexes;
        let mut j: usize = 0;
        while j < previous.indexes.len()
            invariant
                j <= previous.indexes.len(),
                indexes == previous.deep_view().indexes,
                steps.deep_view() == before + dropped_index_steps_in(
                    previous.name@,
                    indexes.take(j as int),
                    next.deep_view().indexes,
                ),
            decreases previous.indexes.len() - j,
        {
            proof {
                lemma_take_step(indexes, j as int);
            }
            if !contains_same(&next.indexes, &previous.indexes[j]) {
                push_sql_step(
                    steps,
                    SqlMigrationStep::DropIndex {
                        table: previous.name.clone(),
                        name: previous.indexes[j].name.clone(),
                    },
                );
            }
            assert(steps.deep_view() =~= before + dropped_index_steps_in(
                previous.name@,
                indexes.take(j + 1),
                next.deep_view().indexes,
            ));
            j = j + 1;
        }
        proof {
            lemma_take_all(indexes);
        }
        assert(steps.deep_view() =~= start + dropped_index_steps(views.take(i + 1)));
        i = i + 1;
    }
    proof {
        lemma_take_all(views);
    }
}

/// Appends the creation of each table.

pub fn push_created_tables(steps: &mut Vec<SqlMigrationStep>, tables: &Vec<&Table>)
    ensures
        final(steps).deep_view() == old(steps).deep_view() + created_table_steps(
            views_of(tables@),
        ),
{
    let ghost start = steps.deep_view();
    let ghost views = views_of(tables@);
    let mut i: usize = 0;
    while i < tables.len()
        invariant
            i <= tables.len(),
            views == views_of(tables@),
            steps.deep_view() == start + created_table_steps(views.take(i as int)),
        decreases tables.len() - i,
    {
        proof {
            lemma_take_step(views, i as int);
        }
        push_sql_step(steps, SqlMigrationStep::CreateTable { table: tables[i].duplicate() });
        assert(steps.deep_view() =~= start + created_table_steps(views.take(i + 1)));
        i = i + 1;
    }
    proof {
        lemma_take_all(views);
    }
}

/// Appends the drop of each table.

pub fn push_dropped_tables(steps: &mut Vec<SqlMigrationStep>, tables: &Vec<&Table>)
    ensures
        final(steps).deep_view() == old(steps).deep_view() + dropped_table_steps(
            views_of(tables@),
        ),
{
    let ghost start = steps.deep_view();
    let ghost views = views_of(tables@);
    let mut i: usize = 0;
    while i < tables.len()
        invariant
            i <= tables.len(),
            views == views_of(tables@),
            steps.deep_view() == start + dropped_table_steps(views.take(i as int)),
        decreases tables.len() - i,
    {
        proof {
            lemma_take_step(views, i as int);
        }
        push_sql_step(steps, SqlMigrationStep::DropTable { name: tables[i].name.clone() });
        assert(steps.deep_view() =~= start + dropped_table_steps(views.take(i + 1)));
        i = i + 1;
    }
    proof {
        lemma_take_all(views);
    }
}

/// Whether the engines of the family can change a column where it stands.
pub fn can_alter_in_place(family: SqlFamily) -> (can: bool)
    ensures
        can == alters_in_place(family),
{
    match family {
        SqlFamily::Sqlite => false,
        _ => true,
    }
}

/// Appends the steps on the columns of one table that stays.
pub fn push_column_steps(
    steps: &mut Vec<SqlMigrationStep>,
    family: SqlFamily,
    pair: &Paired<'_, Table>,
)
    ensures
        final(steps).deep_view() == old(steps).deep_view() + column_steps(
            family,
            pair.deep_view(),
        ),
{
    let ghost start = steps.deep_view();
    let previous = pair.previous;
    let next = pair.next;
    let previous_columns = borrow_all(&previous.columns);
    let next_columns = borrow_all(&next.columns);
    let ghost table = previous.name@;

    let added = unmatched_items(&next_columns, &previous_columns);
    let ghost added_views = views_of(added@);
    let mut i: usize = 0;
    while i < added.len()
        invariant
            i <= added.len(),
            table == previous.name@,
            added_views == views_of(added@),
            steps.deep_view() == start + added_column_steps(table, added_views.take(i as int)),
        decreases added.len() - i,
    {
        proof {
            lemma_take_step(added_views, i as int);
        }
        push_sql_step(
            steps,
            SqlMigrationStep::AddColumn {
                table: previous.name.clone(),
                column: added[i].duplicate(),
            },
        );
        assert(steps.deep_view() =~= start + added_column_steps(table, added_views.take(i + 1)));
        i = i + 1;
    }
    proof {
        lemma_take_all(added_views);
    }
    let ghost after_added = steps.deep_view();

    let pairs = matched_items(&previous_columns, &next_columns);
    let ghost pair_views = pairs.deep_view();
    let mut j: usize = 0;
    while j < pairs.len()
        invariant
            j <= pairs.len(),
            table == previous.name@,
            pair_views == pairs.deep_view(),
            steps.deep_view() == after_added + altered_column_steps(
                family,
                table,
                pair_views.take(j as int),
            ),
        decreases pairs.len() - j,
    {
        proof {
            lemma_take_step(pair_views, j as int);
        }
        let ghost before = steps.deep_view();
        let before_column = pairs[j].previous;
        let after_column = pairs[j].next;
        if !before_column.same(after_column) {
            if can_alter_in_place(family) {
                push_sql_step(
                    steps,
                    SqlMigrationStep::AlterColumn {
                        table: previous.name.clone(),
                        previous: before_column.duplicate(),
                        next: after_column.duplicate(),
                    },
                );
            } else {
                push_sql_step(
                    steps,
                    SqlMigrationStep::DropColumn {
                        table: previous.name.clone(),
                        name: before_column.name.clone(),
                    },
                );
                push_sql_step(
                    steps,
                    SqlMigrationStep::AddColumn {
                        table: previous.name.clone(),
                        column: after_column.duplicate(),
                    },
                );
            }
        }
        assert(steps.deep_view() =~= before + altered_column_step(
            family,
            table,
            pair_views[j as int],
        ));
        assert(steps.deep_view() =~= after_added + altered_column_steps(
            family,
            table,
            pair_views.take(j + 1),
        ));
        j = j + 1;
    }
    proof {
        lemma_take_all(pair_views);
    }
    let ghost after_altered = steps.deep_view();

    let dropped = unmatched_items(&previous_columns, &next_columns);
    let ghost dropped_views = views_of(dropped@);
    let mut k: usize = 0;
    while k < dropped.len()
        invariant
            k <= dropped.len(),
            table == previous.name@,
            dropped_views == views_of(dropped@),
            steps.deep_view() == after_altered + dropped_column_steps(
                table,
                dropped_views.take(k as int),
            ),
        decreases dropped.len() - k,
    {
        proof {
            lemma_take_step(dropped_views, k as int);
        }
        push_sql_step(
            steps,
            SqlMigrationStep::DropColumn {
                table: previous.name.clone(),
                name: dropped[k].name.clone(),
            },
        );
        assert(steps.deep_view() =~= after_altered + dropped_column_steps(
            table,
            dropped_views.take(k + 1),
        ));
        k = k + 1;
    }
    proof {
        lemma_take_all(dropped_views);
        assert(steps.deep_view() =~= start + column_steps(family, pair.deep_view()));
    }
}

/// Appends the steps on the columns of each table that stays.

pub fn push_columns_steps(
    steps: &mut Vec<SqlMigrationStep>,
    family: SqlFamily,
    pairs: &Vec<Paired<'_, Table>>,
)
    ensures
        final(steps).deep_view() == old(steps).deep_view() + columns_steps(
            family,
            pairs.deep_view(),
        ),
{
    let ghost start = steps.deep_view();
    let ghost views = pairs.deep_view();
    let mut i: usize = 0;
    while i < pairs.len()
        invariant
            i <= pairs.len(),
            views == pairs.deep_view(),
            steps.deep_view() == start + columns_steps(family, views.take(i as int)),
        decreases pairs.len() - i,
    {
        proof {
            lemma_take_step(views, i as int);
        }
        push_column_steps(steps, family, &pairs[i]);
        assert(steps.deep_view() =~= start + columns_steps(family, views.take(i + 1)));
        i = i + 1;
    }
    proof {
        lemma_take_all(views);
    }
}

/// Appends the creation of every index that the current structure lacks.

pub fn push_created_indexes(
    steps: &mut Vec<SqlMigrationStep>,
    next: &Vec<&Table>,
    current: &Vec<&Table>,
)
    ensures
        final(steps).deep_view() == old(steps).deep_view() + created_index_steps(
            views_of(next@),
            views_of(current@),
        ),
{
    let ghost start = steps.deep_view();
    let ghost views = views_of(next@);
    let ghost current_views = views_of(current@);
    let mut i: usize = 0;
    while i < next.len()
        invariant
            i <= next.len(),
            views == views_of(next@),
            current_views == views_of(current@),
            steps.deep_view() == start + created_index_steps(views.take(i as int), current_views),
        decreases next.len() - i,
    {
        let table = next[i];
        proof {
            lemma_take_step(views, i as int);
        }
        let ghost before = steps.deep_view();
        let ghost indexes = table.deep_view().indexes;
        let ghost there = indexes_in(current_views, table.name@);
        let stays = find_table(current, &table.name);
        let mut j: usize = 0;
        while j < table.indexes.len()
            invariant
                j <= table.indexes.len(),
                indexes == table.deep_view().indexes,
                current_views == views_of(current@),
                there == indexes_in(current_views, table.name@),
                stays.deep_view() == (if has_key(current_views, table.name@) {
                    Some(item_of(current_views, table.name@))
                } else {
                    None
                }),
                steps.deep_view() == before + created_index_steps_in(
                    table.name@,
                    indexes.take(j as int),
                    there,
                ),
            decreases table.indexes.len() - j,
        {
            proof {
                lemma_take_step(indexes, j as int);
            }
            let present = match stays {
                Some(current_table) => contains_same(&current_table.indexes, &table.indexes[j]),
                None => false,
            };
            if !present {
                push_sql_step(
                    steps,
                    SqlMigrationStep::CreateIndex {
                        table: table.name.clone(),
                        index: table.indexes[j].duplicate(),
                    },
                );
            }
            assert(steps.deep_view() =~= before + created_index_steps_in(
                table.name@,
                indexes.take(j + 1),
                there,
            ));
            j = j + 1;
        }
        proof {
            lemma_take_all(indexes);
        }
        assert(steps.deep_view() =~= start + created_index_steps(views.take(i + 1), current_views));
        i = i + 1;
    }
    proof {
        lemma_take_all(views);
    }
}

/// Appends the addition of every foreign key that the current structure lacks.

pub fn push_added_foreign_keys(
    steps: &mut Vec<SqlMigrationStep>,
    next: &Vec<&Table>,
    current: &Vec<&Table>,
)
    ensures
        final(steps).deep_view() == old(steps).deep_view() + added_foreign_key_steps(
            views_of(next@),
            views_of(current@),
        ),
{
    let ghost start = steps.deep_view();
    let ghost views = views_of(next@);
    let ghost current_views = views_of(current@);
    let mut i: usize = 0;
    while i < next.len()
        invariant
            i <= next.len(),
            views == views_of(next@),
            current_views == views_of(current@),
            steps.deep_view() == start + added_foreign_key_steps(
                views.take(i as int),
                current_views,
            ),
        decreases next.len() - i,
    {
        let table = next[i];
        proof {
            lemma_take_step(views, i as int);
        }
        let ghost before = steps.deep_view();
        let ghost keys = table.deep_view().foreign_keys;
        let ghost there = foreign_keys_in(current_views, table.name@);
        let stays = find_table(current, &table.name);
        let mut j: usize = 0;
        while j < table.foreign_keys.len()
            invariant
                j <= table.foreign_keys.len(),
                keys == table.deep_view().foreign_keys,
                current_views == views_of(current@),
                there == foreign_keys_in(current_views, table.name@),
                stays.deep_view() == (if has_key(current_views, table.name@) {
                    Some(item_of(current_views, table.name@))
                } else {
                    None
                }),
                steps.deep_view() == before + added_foreign_key_steps_in(
                    table.name@,
                    keys.take(j as int),
                    there,
                ),
            decreases table.foreign_keys.len() - j,
        {
            proof {
                lemma_take_step(keys, j as int);
            }
            let present = match stays {
                Some(current_table) => contains_same(
                    &current_table.foreign_keys,
                    &table.foreign_keys[j],
                ),
                None => false,
            };
            if !present {
                push_sql_step(
                    steps,
                    SqlMigrationStep::AddForeignKey {
                        table: table.name.clone(),
                        foreign_key: table.foreign_keys[j].duplicate(),
                    },
                );
            }
            assert(steps.deep_view() =~= before + added_foreign_key_steps_in(
                table.name@,
                keys.take(j + 1),
                there,
            ));
            j = j + 1;
        }
        proof {
            lemma_take_all(keys);
        }
        assert(steps.deep_view() =~= start + added_foreign_key_steps(
            views.take(i + 1),
            current_views,
        ));
        i = i + 1;
    }
    proof {
        lemma_take_all(views);
    }
}

/// The steps from the structure `current` to the structure `next`.
pub fn diff_schemas(current: &SqlSchema, next: &SqlSchema, family: SqlFamily) -> (steps: Vec<
    SqlMigrationStep,
>)
    ensures
        steps.deep_view() == schema_steps(current.deep_view(), next.deep_view(), family),
{
    let current_tables = borrow_all(&current.tables);
    let next_tables = borrow_all(&next.tables);
    let pairs = matched_items(&current_tables, &next_tables);
    let mut steps: Vec<SqlMigrationStep> = Vec::new();
    assert(steps.deep_view() =~= Seq::<SqlStepView>::empty());
    push_dropped_foreign_keys(&mut steps, &current_tables, &next_tables);
    push_dropped_indexes(&mut steps, &pairs);
    push_created_tables(&mut steps, &unmatched_items(&next_tables, &current_tables));
    push_columns_steps(&mut steps, family, &pairs);
    push_dropped_tables(&mut steps, &unmatched_items(&current_tables, &next_tables));
    push_created_indexes(&mut steps, &next_tables, &current_tables);
    push_added_foreign_keys(&mut steps, &next_tables, &current_tables);
    assert(steps.deep_view() =~= schema_steps(current.deep_view(), next.deep_view(), family));
    steps
}

} // verus!
