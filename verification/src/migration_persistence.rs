//! The log of migrations: every migration is appended as pending and later marked as applied
//! or as failed, once. The schema in force is what the applied migrations lead to.

use crate::datamodel_calculator::{infer, SchemaByName};
use crate::keyed::KeyedSchema;
use crate::names::{lemma_take_all, lemma_take_step};
use crate::replay::apply_steps;
use crate::sql_migration_connector::SqlFamily;
use crate::sql_renderer::{push_quoted, push_table_definition, quoted, table_definition};
use crate::sql_schema::{
    Column, ColumnType, ColumnTypeFamily, ColumnView, PrimaryKey, Table, TableView,
};
use crate::steps::{MigrationStep, StepView};
use vstd::prelude::*;
use vstd::string::StringExecFns;

verus! {

#[derive(Clone, Copy, Debug, PartialEq, Eq, Structural)]
pub enum MigrationStatus {
    Pending,
    Applied,
    Failed,
}

/// One record of the log.
#[derive(Clone, Debug, PartialEq, Eq)]
pub struct Migration {
    /// The id of the migration.
    pub name: String,
    /// The schema that the migration leads to, as text.
    pub datamodel: String,
    pub datamodel_steps: Vec<MigrationStep>,
    /// The rendered statements of the migration.
    pub database_steps: Vec<String>,
    pub status: MigrationStatus,
    pub started_at: u64,
    pub finished_at: Option<u64>,
}

pub struct MigrationView {
    pub name: Seq<char>,
    pub datamodel: Seq<char>,
    pub datamodel_steps: Seq<StepView>,
    pub database_steps: Seq<Seq<char>>,
    pub status: MigrationStatus,
    pub started_at: u64,
    pub finished_at: Option<u64>,
}

impl DeepView for Migration {
    type V = MigrationView;

    open spec fn deep_view(&self) -> MigrationView {
        MigrationView {
            name: self.name@,
            datamodel: self.datamodel@,
            datamodel_steps: self.datamodel_steps.deep_view(),
            database_steps: self.database_steps.deep_view(),
            status: self.status,
            started_at: self.started_at,
            finished_at: self.finished_at,
        }
    }
}

/// Why the log refused an operation.
#[derive(Clone, Copy, Debug, PartialEq, Eq, Structural)]
pub enum PersistenceError {
    /// The log was not set up.
    StoreMissing,
    /// The log has a migration of that id already.
    DuplicateMigration,
    /// The log has no migration of that id.
    UnknownMigration,
    /// The migration was marked as applied or as failed before.
    AlreadyFinished,
}

/// The log of migrations, in the order in which they were started. It is absent until it
/// is set up.
#[derive(Clone, Debug, PartialEq, Eq)]
pub struct MigrationLog {
    pub records: Option<Vec<Migration>>,
}

impl DeepView for MigrationLog {
    type V = Option<Seq<MigrationView>>;

    open spec fn deep_view(&self) -> Option<Seq<MigrationView>> {
        self.records.deep_view()
    }
}

/// The log after it was set up: an absent log is empty, a log that is there stays as it is.
pub open spec fn initialized(log: Option<Seq<MigrationView>>) -> Option<Seq<MigrationView>> {
    match log {
        Some(records) => Some(records),
        None => Some(Seq::empty()),
    }
}

/// Some record has the id.
pub open spec fn has_migration(records: Seq<MigrationView>, name: Seq<char>) -> bool {
    exists|i: int| 0 <= i < records.len() && (#[trigger] records[i]).name == name
}

/// The schema that the applied migrations among the records lead to, starting from `schema`.
pub open spec fn schema_after(schema: KeyedSchema, records: Seq<MigrationView>) -> KeyedSchema
    decreases records.len(),
{
    if records.len() == 0 {
        schema
    } else if records.last().status == MigrationStatus::Applied {
        apply_steps(schema_after(schema, records.drop_last()), records.last().datamodel_steps)
    } else {
        schema_after(schema, records.drop_last())
    }
}

pub open spec fn empty_schema() -> KeyedSchema {
    KeyedSchema { enums: Map::empty(), models: Map::empty() }
}

/// The schema in force according to a log.
pub open spec fn current_schema(log: Option<Seq<MigrationView>>) -> KeyedSchema {
    match log {
        Some(records) => schema_after(empty_schema(), records),
        None => empty_schema(),
    }
}

/// The record at `place` with another status.
pub open spec fn finished(
    records: Seq<MigrationView>,
    place: int,
    status: MigrationStatus,
    finished_at: u64,
) -> Seq<MigrationView> {
    records.update(
        place,
        MigrationView { status, finished_at: Some(finished_at), ..records[place] },
    )
}

/// `place` is the position of the first record with the id.
pub open spec fn is_place_of(records: Seq<MigrationView>, name: Seq<char>, place: int) -> bool {
    &&& 0 <= place < records.len()
    &&& records[place].name == name
    &&& forall|j: int| 0 <= j < place ==> (#[trigger] records[j]).name != name
}

impl MigrationLog {
    /// A log that was not set up.
    pub fn absent() -> (log: Self)
        ensures
            log.deep_view() == None::<Seq<MigrationView>>,
    {
        MigrationLog { records: None }
    }

    /// Sets the log up if it is absent. Setting it up again changes nothing.
    pub fn init(self) -> (log: Self)
        ensures
            log.deep_view() == initialized(self.deep_view()),
    {
        match self.records {
            Some(records) => MigrationLog { records: Some(records) },
            None => {
                let records: Vec<Migration> = Vec::new();
                assert(records.deep_view() =~= Seq::<MigrationView>::empty());
                MigrationLog { records: Some(records) }
            },
        }
    }

    /// Clears the log: it is absent afterwards.
    pub fn reset(self) -> (log: Self)
        ensures
            log.deep_view() == None::<Seq<MigrationView>>,
    {
        MigrationLog { records: None }
    }

    /// The position of the first record with the id.
    pub fn position(records: &Vec<Migration>, name: &String) -> (found: Option<usize>)
        ensures
            found matches Some(place) ==> is_place_of(records.deep_view(), name@, place as int),
            found is None <==> !has_migration(records.deep_view(), name@),
    {
        let mut i: usize = 0;
        while i < records.len()
            invariant
                i <= records.len(),
                forall|j: int| 0 <= j < i ==> (#[trigger] records.deep_view()[j]).name != name@,
            decreases records.len() - i,
        {
            if records[i].name == *name {
                assert(records.deep_view()[i as int].name == name@);
                return Some(i);
            }
            i = i + 1;
        }
        None
    }

    /// Appends a migration as pending. The log stays as it is where it is absent or has a
    /// migration of that id.
    pub fn create(self, migration: Migration) -> (appended: (Self, Result<(), PersistenceError>))
        ensures
            appended.1 == (match self.deep_view() {
                None => Err::<(), PersistenceError>(PersistenceError::StoreMissing),
                Some(records) => if has_migration(records, migration.name@) {
                    Err(PersistenceError::DuplicateMigration)
                } else {
                    Ok(())
                },
            }),
            appended.1 is Err ==> appended.0.deep_view() == self.deep_view(),
            appended.1 is Ok ==> appended.0.deep_view() == Some(
                self.deep_view()->0.push(
                    MigrationView {
                        status: MigrationStatus::Pending,
                        finished_at: None,
                        ..migration.deep_view()
                    },
                ),
            ),
    {
        match self.records {
            None => (MigrationLog { records: None }, Err(PersistenceError::StoreMissing)),
            Some(records) => {
                match Self::position(&records, &migration.name) {
                    Some(_) => (
                        MigrationLog { records: Some(records) },
                        Err(PersistenceError::DuplicateMigration),
                    ),
                    None => {
                        let ghost before = records.deep_view();
                        let mut records = records;
                        let pending = Migration {
                            status: MigrationStatus::Pending,
                            finished_at: None,
                            ..migration
                        };
                        records.push(pending);
                        assert(records.deep_view() =~= before.push(pending.deep_view()));
                        (MigrationLog { records: Some(records) }, Ok(()))
                    },
                }
            },
        }
    }

    /// Marks a pending migration as applied or as failed. A record that was marked before is
    /// never changed.
    pub fn finish(self, name: &String, applied: bool, finished_at: u64) -> (marked: (
        Self,
        Result<(), PersistenceError>,
    ))
        ensures
            marked.1 == (match self.deep_view() {
                None => Err::<(), PersistenceError>(PersistenceError::StoreMissing),
                Some(records) => if !has_migration(records, name@) {
                    Err(PersistenceError::UnknownMigration)
                } else if exists|place: int|
                    is_place_of(records, name@, place) && records[place].status
                        != MigrationStatus::Pending {
                    Err(PersistenceError::AlreadyFinished)
                } else {
                    Ok(())
                },
            }),
            marked.1 is Err ==> marked.0.deep_view() == self.deep_view(),
            marked.1 is Ok ==> exists|place: int|
                is_place_of(self.deep_view()->0, name@, place) && marked.0.deep_view() == Some(
                    finished(
                        self.deep_view()->0,
                        place,
                        if applied {
                            MigrationStatus::Applied
                        } else {
                            MigrationStatus::Failed
                        },
                        finished_at,
                    ),
                ),
    {
        match self.records {
            None => (MigrationLog { records: None }, Err(PersistenceError::StoreMissing)),
            Some(records) => {
                match Self::position(&records, name) {
                    None => (
                        MigrationLog { records: Some(records) },
                        Err(PersistenceError::UnknownMigration),
                    ),
                    Some(place) => {
                        let ghost before = records.deep_view();
                        proof {
                            assert forall|other: int| is_place_of(before, name@, other) implies other
                                == place by {
                                if other < place {
                                    assert(before[other].name != name@);
                                }
                                if place < other {
                                    assert(before[place as int].name != name@);
                                }
                            }
                            assert(has_migration(before, name@));
                        }
                        if records[place].status != MigrationStatus::Pending {
                            (
                                MigrationLog { records: Some(records) },
                                Err(PersistenceError::AlreadyFinished),
                            )
                        } else {
                            let status = if applied {
                                MigrationStatus::Applied
                            } else {
                                MigrationStatus::Failed
                            };
                            let mut records = records;
                            let record = records.remove(place);
                            let marked = Migration {
                                status,
                                finished_at: Some(finished_at),
                                ..record
                            };
                            records.insert(place, marked);
                            assert(records.deep_view() =~= finished(
                                before,
                                place as int,
                                status,
                                finished_at,
                            ));
                            (MigrationLog { records: Some(records) }, Ok(()))
                        }
                    },
                }
            },
        }
    }

    /// The schema in force: what the applied migrations lead to, in the order of the log,
    /// starting from the empty schema.
    pub fn current_datamodel(&self) -> (schema: SchemaByName)
        ensures
            schema.deep_view() == current_schema(self.deep_view()),
    {
        let mut schema = SchemaByName::empty();
        match &self.records {
            None => schema,
            Some(records) => {
                let ghost views = records.deep_view();
                let mut i: usize = 0;
                while i < records.len()
                    invariant
                        i <= records.len(),
                        views == records.deep_view(),
                        schema.deep_view() == schema_after(empty_schema(), views.take(i as int)),
                    decreases records.len() - i,
                {
                    proof {
                        lemma_take_step(views, i as int);
                    }
                    if records[i].status == MigrationStatus::Applied {
                        schema = infer(schema, &records[i].datamodel_steps);
                    }
                    i = i + 1;
                }
                proof {
                    lemma_take_all(views);
                }
                schema
            },
        }
    }
}

/// The table that holds the log in a database: one row for each record, with the id of
/// the migration and the record as text.
pub open spec fn store_table_view() -> TableView {
    TableView {
        name: "_Migration"@,
        columns: seq![
            ColumnView {
                name: "name"@,
                tpe: ColumnType { family: ColumnTypeFamily::String, size: Some(255u32) },
                required: true,
                default: None,
            },
            ColumnView {
                name: "record"@,
                tpe: ColumnType { family: ColumnTypeFamily::String, size: None },
                required: true,
                default: None,
            },
        ],
        primary_key: Some(seq!["name"@]),
        foreign_keys: Seq::empty(),
        indexes: Seq::empty(),
    }
}

/// The table that holds the log in a database.
pub fn store_table() -> (table: Table)
    ensures
        table.deep_view() == store_table_view(),
{
    let mut columns: Vec<Column> = Vec::new();
    columns.push(
        Column {
            name: String::from_str("name"),
            tpe: ColumnType { family: ColumnTypeFamily::String, size: Some(255) },
            required: true,
            default: None,
        },
    );
    columns.push(
        Column {
            name: String::from_str("record"),
            tpe: ColumnType { family: ColumnTypeFamily::String, size: None },
            required: true,
            default: None,
        },
    );
    let mut key: Vec<String> = Vec::new();
    key.push(String::from_str("name"));
    let table = Table {
        name: String::from_str("_Migration"),
        columns,
        primary_key: Some(PrimaryKey { columns: key }),
        foreign_keys: Vec::new(),
        indexes: Vec::new(),
    };
    assert(table.deep_view().columns =~= store_table_view().columns);
    assert(table.deep_view().primary_key->0 =~= store_table_view().primary_key->0);
    assert(table.deep_view().foreign_keys =~= store_table_view().foreign_keys);
    assert(table.deep_view().indexes =~= store_table_view().indexes);
    table
}

/// The statement that sets the log up in a database. It creates the table only where it is
/// absent, so that it can be repeated.
pub fn init_statement(family: SqlFamily) -> (statement: String)
    ensures
        statement@ == "CREATE TABLE IF NOT EXISTS "@ + table_definition(
            family,
            store_table_view(),
        ),
{
    let mut statement = String::from_str("CREATE TABLE IF NOT EXISTS ");
    push_table_definition(&mut statement, family, &store_table());
    statement
}

/// The statement that clears the log in a database.
pub fn reset_statement(family: SqlFamily) -> (statement: String)
    ensures
        statement@ == "DROP TABLE IF EXISTS "@ + quoted(family, "_Migration"@),
{
    let mut statement = String::from_str("DROP TABLE IF EXISTS ");
    push_quoted(&mut statement, family, "_Migration");
    statement
}

/// Setting the log up twice is setting it up once.
pub proof fn lemma_init_is_idempotent(log: Option<Seq<MigrationView>>)
    ensures
        initialized(initialized(log)) == initialized(log),
        log is Some ==> initialized(log) == log,
        current_schema(initialized(log)) == current_schema(log),
{
}

/// Marking a migration touches no other record, and none that was marked before.
pub proof fn lemma_finished_records_stay(
    records: Seq<MigrationView>,
    place: int,
    status: MigrationStatus,
    finished_at: u64,
    other: int,
)
    requires
        0 <= place < records.len(),
        0 <= other < records.len(),
        other != place,
    ensures
        finished(records, place, status, finished_at).len() == records.len(),
        finished(records, place, status, finished_at)[other] == records[other],
{
}

} // verus!
