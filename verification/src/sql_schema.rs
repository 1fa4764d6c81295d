//! The structure of a database, whatever its engine: tables with their columns, primary
//! key, foreign keys and indexes. It is read from a live database or calculated from a
//! declarative schema.

use crate::names::{Keyed, Named};
use crate::steps::{duplicate_strings, Diffable};
use vstd::prelude::*;

verus! {

/// The kinds of column types.
#[derive(Clone, Copy, Debug, PartialEq, Eq, Structural)]
pub enum ColumnTypeFamily {
    Int,
    Float,
    Boolean,
    String,
    DateTime,
    Binary,
    Json,
    Uuid,
}

/// The type of a column: its kind and, where it is limited, the size of its values.
#[derive(Clone, Copy, Debug, PartialEq, Eq, Structural)]
pub struct ColumnType {
    pub family: ColumnTypeFamily,
    pub size: Option<u32>,
}

#[derive(Clone, Debug, PartialEq, Eq)]
pub struct Column {
    pub name: String,
    pub tpe: ColumnType,
    /// Whether the column refuses NULL.
    pub required: bool,
    pub default: Option<String>,
}

pub struct ColumnView {
    pub name: Seq<char>,
    pub tpe: ColumnType,
    pub required: bool,
    pub default: Option<Seq<char>>,
}

impl DeepView for Column {
    type V = ColumnView;

    open spec fn deep_view(&self) -> ColumnView {
        ColumnView {
            name: self.name@,
            tpe: self.tpe,
            required: self.required,
            default: self.default.deep_view(),
        }
    }
}

#[derive(Clone, Debug, PartialEq, Eq)]
pub struct PrimaryKey {
    pub columns: Vec<String>,
}

/// What happens to a row when the row that it refers to is deleted.
#[derive(Clone, Copy, Debug, PartialEq, Eq, Structural)]
pub enum OnDelete {
    Restrict,
    Cascade,
    SetNull,
}

#[derive(Clone, Debug, PartialEq, Eq)]
pub struct ForeignKey {
    pub name: String,
    pub columns: Vec<String>,
    pub referenced_table: String,
    pub referenced_columns: Vec<String>,
    pub on_delete: OnDelete,
}

pub struct ForeignKeyView {
    pub name: Seq<char>,
    pub columns: Seq<Seq<char>>,
    pub referenced_table: Seq<char>,
    pub referenced_columns: Seq<Seq<char>>,
    pub on_delete: OnDelete,
}

impl DeepView for ForeignKey {
    type V = ForeignKeyView;

    open spec fn deep_view(&self) -> ForeignKeyView {
        ForeignKeyView {
            name: self.name@,
            columns: self.columns.deep_view(),
            referenced_table: self.referenced_table@,
            referenced_columns: self.referenced_columns.deep_view(),
            on_delete: self.on_delete,
        }
    }
}

#[derive(Clone, Debug, PartialEq, Eq)]
pub struct Index {
    pub name: String,
    pub columns: Vec<String>,
    pub unique: bool,
}

pub struct IndexView {
    pub name: Seq<char>,
    pub columns: Seq<Seq<char>>,
    pub unique: bool,
}

impl DeepView for Index {
    type V = IndexView;

    open spec fn deep_view(&self) -> IndexView {
        IndexView { name: self.name@, columns: self.columns.deep_view(), unique: self.unique }
    }
}

#[derive(Clone, Debug, PartialEq, Eq)]
pub struct Table {
    pub name: String,
    pub columns: Vec<Column>,
    pub primary_key: Option<PrimaryKey>,
    pub foreign_keys: Vec<ForeignKey>,
    pub indexes: Vec<Index>,
}

pub struct TableView {
    pub name: Seq<char>,
    pub columns: Seq<ColumnView>,
    pub primary_key: Option<Seq<Seq<char>>>,
    pub foreign_keys: Seq<ForeignKeyView>,
    pub indexes: Seq<IndexView>,
}

impl DeepView for Table {
    type V = TableView;

    open spec fn deep_view(&self) -> TableView {
        TableView {
            name: self.name@,
            columns: self.columns.deep_view(),
            primary_key: match self.primary_key {
                Some(key) => Some(key.columns.deep_view()),
                None => None,
            },
            foreign_keys: self.foreign_keys.deep_view(),
            indexes: self.indexes.deep_view(),
        }
    }
}

#[derive(Clone, Debug, PartialEq, Eq)]
pub struct SqlSchema {
    pub tables: Vec<Table>,
}

pub struct SqlSchemaView {
    pub tables: Seq<TableView>,
}

impl DeepView for SqlSchema {
    type V = SqlSchemaView;

    open spec fn deep_view(&self) -> SqlSchemaView {
        SqlSchemaView { tables: self.tables.deep_view() }
    }
}

impl Keyed for ColumnView {
    open spec fn key(&self) -> Seq<char> {
        self.name
    }
}

impl Keyed for TableView {
    open spec fn key(&self) -> Seq<char> {
        self.name
    }
}

impl Named for Column {
    fn name(&self) -> (name: &String) {
        &self.name
    }
}

impl Named for Table {
    fn name(&self) -> (name: &String) {
        &self.name
    }
}

/// Whether two lists of names are the same.
pub fn same_strings(a: &Vec<String>, b: &Vec<String>) -> (same: bool)
    ensures
        same == (a.deep_view() == b.deep_view()),
{
    if a.len() != b.len() {
        assert(a.deep_view().len() != b.deep_view().len());
        return false;
    }
    let mut i: usize = 0;
    while i < a.len()
        invariant
            i <= a.len(),
            a.len() == b.len(),
            forall|j: int| 0 <= j < i ==> a.deep_view()[j] == b.deep_view()[j],
        decreases a.len() - i,
    {
        if a[i] != b[i] {
            assert(a.deep_view()[i as int] != b.deep_view()[i as int]);
            return false;
        }
        i = i + 1;
    }
    assert(a.deep_view() =~= b.deep_view());
    true
}

impl Diffable for Column {
    fn same(&self, other: &Self) -> (same: bool) {
        self.name == other.name && self.tpe == other.tpe && self.required == other.required
            && self.default.same(&other.default)
    }

    fn duplicate(&self) -> (copy: Self) {
        Column {
            name: self.name.clone(),
            tpe: self.tpe,
            required: self.required,
            default: self.default.duplicate(),
        }
    }
}

impl Diffable for ForeignKey {
    fn same(&self, other: &Self) -> (same: bool) {
        self.name == other.name && same_strings(&self.columns, &other.columns)
            && self.referenced_table == other.referenced_table && same_strings(
            &self.referenced_columns,
            &other.referenced_columns,
        ) && self.on_delete == other.on_delete
    }

    fn duplicate(&self) -> (copy: Self) {
        ForeignKey {
            name: self.name.clone(),
            columns: duplicate_strings(&self.columns),
            referenced_table: self.referenced_table.clone(),
            referenced_columns: duplicate_strings(&self.referenced_columns),
            on_delete: self.on_delete,
        }
    }
}

impl Diffable for Index {
    fn same(&self, other: &Self) -> (same: bool) {
        self.name == other.name && same_strings(&self.columns, &other.columns) && self.unique
            == other.unique
    }

    fn duplicate(&self) -> (copy: Self) {
        Index {
            name: self.name.clone(),
            columns: duplicate_strings(&self.columns),
            unique: self.unique,
        }
    }
}

/// Copies a list of values.
pub fn duplicate_all<T: Diffable>(items: &Vec<T>) -> (copy: Vec<T>)
    ensures
        copy.deep_view() == items.deep_view(),
{
    let mut copy: Vec<T> = Vec::new();
    let mut i: usize = 0;
    while i < items.len()
        invariant
            i <= items.len(),
            copy@.len() == i,
            forall|j: int| 0 <= j < i ==> copy@[j].deep_view() == items@[j].deep_view(),
        decreases items.len() - i,
    {
        copy.push(items[i].duplicate());
        i = i + 1;
    }
    assert(copy.deep_view() =~= items.deep_view());
    copy
}

impl Table {
    /// A copy of the table.
    pub fn duplicate(&self) -> (copy: Self)
        ensures
            copy.deep_view() == self.deep_view(),
    {
        Table {
            name: self.name.clone(),
            columns: duplicate_all(&self.columns),
            primary_key: match &self.primary_key {
                Some(key) => Some(PrimaryKey { columns: duplicate_strings(&key.columns) }),
                None => None,
            },
            foreign_keys: duplicate_all(&self.foreign_keys),
            indexes: duplicate_all(&self.indexes),
        }
    }
}

} // verus!
