//! From a declarative schema to the structure of the database that holds it. Every model
//! is a table and every field that is not a list is a column. A field whose type is a model
//! holds a reference to that model: an integer column with a foreign key. Enums are held as
//! text.

use crate::ast::{Directive, Field, FieldArity, FieldView, Model, ModelView, SchemaAst, SchemaView};
use crate::datamodel_differ::directives::{directive_string_value, get_directive_string_value};
use crate::datamodel_differ::fields::{default_value, default_value_of};
use crate::datamodel_differ::top_level::{models_in, models_of};
use crate::datamodel_calculator::expression_text;
use crate::keyed::item_of;
use crate::names::{
    borrow_all, has_key, lemma_first_index_unique, lemma_take_all, lemma_take_step, position_of,
    views_of,
};
use crate::sql_schema::{
    Column, ColumnType, ColumnTypeFamily, ColumnView, ForeignKey, ForeignKeyView, Index, IndexView,
    OnDelete, PrimaryKey, SqlSchema, SqlSchemaView, Table, TableView,
};

use vstd::prelude::*;
use vstd::string::StringExecFns;

verus! {

/// The name of the table of a model: what its `map` directive says, or else its own name.
pub open spec fn table_name_of(model: ModelView) -> Seq<char> {
    match directive_string_value("map"@, model.directives) {
        Some(name) => name,
        None => model.name,
    }
}

/// The name of the column of a field: what its `map` directive says, or else its own name.
pub open spec fn column_name_of(field: FieldView) -> Seq<char> {
    match directive_string_value("map"@, field.directives) {
        Some(name) => name,
        None => field.name,
    }
}

/// A list field has no column.
pub open spec fn is_stored(field: FieldView) -> bool {
    field.arity != FieldArity::List
}

/// The kind of the column of a field of the type `tpe`.
pub open spec fn family_of(models: Seq<ModelView>, tpe: Seq<char>) -> ColumnTypeFamily {
    if tpe == "Int"@ {
        ColumnTypeFamily::Int
    } else if tpe == "Float"@ {
        ColumnTypeFamily::Float
    } else if tpe == "Boolean"@ {
        ColumnTypeFamily::Boolean
    } else if tpe == "DateTime"@ {
        ColumnTypeFamily::DateTime
    } else if has_key(models, tpe) {
        ColumnTypeFamily::Int
    } else {
        ColumnTypeFamily::String
    }
}

pub open spec fn column_of(models: Seq<ModelView>, field: FieldView) -> ColumnView {
    ColumnView {
        name: column_name_of(field),
        tpe: ColumnType { family: family_of(models, field.field_type), size: None },
        required: field.arity == FieldArity::Required,
        default: default_value_of(field.directives),
    }
}

/// The columns of the stored fields, in order.
pub open spec fn columns_of(models: Seq<ModelView>, fields: Seq<FieldView>) -> Seq<ColumnView>
    decreases fields.len(),
{
    if fields.len() == 0 {
        Seq::empty()
    } else if is_stored(fields.last()) {
        columns_of(models, fields.drop_last()).push(column_of(models, fields.last()))
    } else {
        columns_of(models, fields.drop_last())
    }
}

/// The columns of the stored fields that have the `id` directive, in order.
pub open spec fn key_columns_of(fields: Seq<FieldView>) -> Seq<Seq<char>>
    decreases fields.len(),
{
    if fields.len() == 0 {
        Seq::empty()
    } else if is_stored(fields.last()) && has_key(fields.last().directives, "id"@) {
        key_columns_of(fields.drop_last()).push(column_name_of(fields.last()))
    } else {
        key_columns_of(fields.drop_last())
    }
}

pub open spec fn primary_key_of(fields: Seq<FieldView>) -> Option<Seq<Seq<char>>> {
    if key_columns_of(fields).len() > 0 {
        Some(key_columns_of(fields))
    } else {
        None
    }
}

pub open spec fn unique_index_of(table: Seq<char>, field: FieldView) -> IndexView {
    IndexView {
        name: table + "_"@ + column_name_of(field) + "_key"@,
        columns: seq![column_name_of(field)],
        unique: true,
    }
}

/// One unique index for each stored field that has the `unique` directive.
pub open spec fn indexes_of(table: Seq<char>, fields: Seq<FieldView>) -> Seq<IndexView>
    decreases fields.len(),
{
    if fields.len() == 0 {
        Seq::empty()
    } else if is_stored(fields.last()) && has_key(fields.last().directives, "unique"@) {
        indexes_of(table, fields.drop_last()).push(unique_index_of(table, fields.last()))
    } else {
        indexes_of(table, fields.drop_last())
    }
}

/// The foreign key of a field whose type is a model: it refers to the key columns of the
/// table of that model. Rows that must refer to a deleted row go with it; others forget it.
pub open spec fn foreign_key_of(
    models: Seq<ModelView>,
    table: Seq<char>,
    field: FieldView,
) -> ForeignKeyView {
    let referenced = item_of(models, field.field_type);
    ForeignKeyView {
        name: table + "_"@ + column_name_of(field) + "_fkey"@,
        columns: seq![column_name_of(field)],
        referenced_table: table_name_of(referenced),
        referenced_columns: key_columns_of(referenced.fields),
        on_delete: if field.arity == FieldArity::Required {
            OnDelete::Cascade
        } else {
            OnDelete::SetNull
        },
    }
}

/// One foreign key for each stored field whose type is a model.
pub open spec fn foreign_keys_of(
    models: Seq<ModelView>,
    table: Seq<char>,
    fields: Seq<FieldView>,
) -> Seq<ForeignKeyView>
    decreases fields.len(),
{
    if fields.len() == 0 {
        Seq::empty()
    } else if is_stored(fields.last()) && has_key(models, fields.last().field_type) {
        foreign_keys_of(models, table, fields.drop_last()).push(
            foreign_key_of(models, table, fields.last()),
        )
    } else {
        foreign_keys_of(models, table, fields.drop_last())
    }
}

pub open spec fn table_of(models: Seq<ModelView>, model: ModelView) -> TableView {
    TableView {
        name: table_name_of(model),
        columns: columns_of(models, model.fields),
        primary_key: primary_key_of(model.fields),
        foreign_keys: foreign_keys_of(models, table_name_of(model), model.fields),
        indexes: indexes_of(table_name_of(model), model.fields),
    }
}

pub open spec fn tables_of(models: Seq<ModelView>, declared: Seq<ModelView>) -> Seq<TableView>
    decreases declared.len(),
{
    if declared.len() == 0 {
        Seq::empty()
    } else {
        tables_of(models, declared.drop_last()).push(table_of(models, declared.last()))
    }
}

/// The structure of the database that holds a schema: one table for each model, in order.
pub open spec fn sql_schema_of(schema: SchemaView) -> SqlSchemaView {
    SqlSchemaView { tables: tables_of(models_of(schema.tops), models_of(schema.tops)) }
}

/// What the `map` directive says, or else `name`.
pub fn mapped_name(directives: &Vec<Directive>, name: &String) -> (mapped: String)
    ensures
        mapped@ == (match directive_string_value("map"@, directives.deep_view()) {
            Some(mapped) => mapped,
            None => name@,
        }),
{
    match get_directive_string_value("map", directives) {
        Some(mapped) => String::from_str(mapped),
        None => name.clone(),
    }
}

/// Whether a directive of that name is there.
pub fn has_directive(directives: &Vec<Directive>, name: &str) -> (found: bool)
    ensures
        found == has_key(directives.deep_view(), name@),
{
    let wanted = String::from_str(name);
    match position_of(&borrow_all(directives), &wanted) {
        Some(i) => {
            assert(directives.deep_view()[i as int].name == name@);
            true
        },
        None => false,
    }
}

/// The kind of the column of a field of the type `tpe`.
pub fn column_family(models: &Vec<&Model>, tpe: &String) -> (family: ColumnTypeFamily)
    ensures
        family == family_of(views_of(models@), tpe@),
{
    if *tpe == String::from_str("Int") {
        ColumnTypeFamily::Int
    } else if *tpe == String::from_str("Float") {
        ColumnTypeFamily::Float
    } else if *tpe == String::from_str("Boolean") {
        ColumnTypeFamily::Boolean
    } else if *tpe == String::from_str("DateTime") {
        ColumnTypeFamily::DateTime
    } else {
        match position_of(models, tpe) {
            Some(i) => {
                assert(views_of(models@)[i as int].name == tpe@);
                ColumnTypeFamily::Int
            },
            None => ColumnTypeFamily::String,
        }
    }
}

/// The key columns of a model.
pub fn key_columns(model: &Model) -> (columns: Vec<String>)
    ensures
        columns.deep_view() == key_columns_of(model.deep_view().fields),
{
    let ghost views = model.deep_view().fields;
    let mut columns: Vec<String> = Vec::new();
    let mut i: usize = 0;
    assert(columns.deep_view() =~= key_columns_of(views.take(0)));
    while i < model.fields.len()
        invariant
            i <= model.fields.len(),
            views == model.deep_view().fields,
            columns.deep_view() == key_columns_of(views.take(i as int)),
        decreases model.fields.len() - i,
    {
        let field = &model.fields[i];
        proof {
            lemma_take_step(views, i as int);
        }
        if is_field_stored(field) && has_directive(&field.directives, "id") {
            let ghost before = columns.deep_view();
            let name = mapped_name(&field.directives, &field.name.name);
            columns.push(name);
            assert(columns.deep_view() =~= before.push(column_name_of(views[i as int])));
        }
        i = i + 1;
    }
    proof {
        lemma_take_all(views);
    }
    columns
}

/// Whether a field has a column.

pub fn is_field_stored(field: &Field) -> (stored: bool)
    ensures
        stored == is_stored(field.deep_view()),
{
    field.arity != FieldArity::List
}

/// The name of a constraint on one column of a table.
pub fn constraint_name(table: &String, column: &String, ending: &str) -> (name: String)
    ensures
        name@ == table@ + "_"@ + column@ + ending@,
{
    let mut name = table.clone();
    name.append("_");
    name.append(column.as_str());
    name.append(ending);
    name
}

/// The table of a model. `models` are the models of the whole schema.
pub fn calculate_table(models: &Vec<&Model>, model: &Model) -> (table: Table)
    ensures
        table.deep_view() == table_of(views_of(models@), model.deep_view()),
{
    let ghost all = views_of(models@);
    let ghost views = model.deep_view().fields;
    let name = mapped_name(&model.directives, &model.name.name);
    let mut columns: Vec<Column> = Vec::new();
    let mut foreign_keys: Vec<ForeignKey> = Vec::new();
    let mut indexes: Vec<Index> = Vec::new();
    let mut i: usize = 0;
    assert(columns.deep_view() =~= columns_of(all, views.take(0)));
    assert(foreign_keys.deep_view() =~= foreign_keys_of(all, name@, views.take(0)));
    assert(indexes.deep_view() =~= indexes_of(name@, views.take(0)));
    while i < model.fields.len()
        invariant
            i <= model.fields.len(),
            all == views_of(models@),
            views == model.deep_view().fields,
            name@ == table_name_of(model.deep_view()),
            columns.deep_view() == columns_of(all, views.take(i as int)),
            foreign_keys.deep_view() == foreign_keys_of(all, name@, views.take(i as int)),
            indexes.deep_view() == indexes_of(name@, views.take(i as int)),
        decreases model.fields.len() - i,
    {
        let field = &model.fields[i];
        proof {
            lemma_take_step(views, i as int);
        }
        if is_field_stored(field) {
            let column_name = mapped_name(&field.directives, &field.name.name);
            let ghost columns_before = columns.deep_view();
            let column = Column {
                name: column_name.clone(),
                tpe: ColumnType {
                    family: column_family(models, &field.field_type.name),
                    size: None,
                },
                required: field.arity == FieldArity::Required,
                default: expression_text(default_value(field)),
            };
            columns.push(column);
            assert(columns.deep_view() =~= columns_before.push(column_of(all, views[i as int])));
            if has_directive(&field.directives, "unique") {
                let ghost indexes_before = indexes.deep_view();
                let mut index_columns: Vec<String> = Vec::new();
                index_columns.push(column_name.clone());
                assert(index_columns.deep_view() =~= seq![column_name@]);
                let index = Index {
                    name: constraint_name(&name, &column_name, "_key"),
                    columns: index_columns,
                    unique: true,
                };
                indexes.push(index);
                assert(indexes.deep_view() =~= indexes_before.push(
                    unique_index_of(name@, views[i as int]),
                ));
            }
            match position_of(models, &field.field_type.name) {
                Some(found) => {
                    proof {
                        lemma_first_index_unique(all, field.field_type.name@, found as int);
                        assert(all[found as int].name == field.field_type.name@);
                    }
                    let referenced = models[found];
                    let ghost keys_before = foreign_keys.deep_view();
                    let mut key_columns_here: Vec<String> = Vec::new();
                    key_columns_here.push(column_name.clone());
                    assert(key_columns_here.deep_view() =~= seq![column_name@]);
                    let foreign_key = ForeignKey {
                        name: constraint_name(&name, &column_name, "_fkey"),
                        columns: key_columns_here,
                        referenced_table: mapped_name(&referenced.directives, &referenced.name.name),
                        referenced_columns: key_columns(referenced),
                        on_delete: if field.arity == FieldArity::Required {
                            OnDelete::Cascade
                        } else {
                            OnDelete::SetNull
                        },
                    };
                    foreign_keys.push(foreign_key);
                    assert(foreign_keys.deep_view() =~= keys_before.push(
                        foreign_key_of(all, name@, views[i as int]),
                    ));
                },
                None => {},
            }
        }
        i = i + 1;
    }
    proof {
        lemma_take_all(views);
    }
    let keys = key_columns(model);
    let primary_key = if keys.len() > 0 {
        Some(PrimaryKey { columns: keys })
    } else {
        None
    };
    Table { name, columns, primary_key, foreign_keys, indexes }
}

/// Calculates the structure of the database that holds a schema.
pub fn calculate_sql_schema(schema: &SchemaAst) -> (calculated: SqlSchema)
    ensures
        calculated.deep_view() == sql_schema_of(schema.deep_view()),
{
    let models = models_in(schema);
    let ghost views = views_of(models@);
    let mut tables: Vec<Table> = Vec::new();
    let mut i: usize = 0;
    assert(tables.deep_view() =~= tables_of(views, views.take(0)));
    while i < models.len()
        invariant
            i <= models.len(),
            views == views_of(models@),
            tables.deep_view() == tables_of(views, views.take(i as int)),
        decreases models.len() - i,
    {
        proof {
            lemma_take_step(views, i as int);
        }
        let ghost before = tables.deep_view();
        let table = calculate_table(&models, models[i]);
        tables.push(table);
        assert(tables.deep_view() =~= before.push(table_of(views, views[i as int])));
        i = i + 1;
    }
    proof {
        lemma_take_all(views);
    }
    SqlSchema { tables }
}

} // verus!
