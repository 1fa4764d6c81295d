use schema_migrate::datamodel_calculator::{infer, SchemaByName};
use schema_migrate::migration_persistence::{
    init_statement, reset_statement, store_table, Migration, MigrationLog, MigrationStatus,
    PersistenceError,
};
use schema_migrate::sql_migration_connector::SqlFamily;
use schema_migrate::steps::{CreateEnum, CreateModel, DeleteModel, Diffable, MigrationStep};

fn create_model(name: &str) -> MigrationStep {
    MigrationStep::CreateModel(CreateModel { name: name.to_string(), db_name: None, embedded: false })
}

fn migration(name: &str, steps: Vec<MigrationStep>) -> Migration {
    Migration {
        name: name.to_string(),
        datamodel: "".to_string(),
        datamodel_steps: steps,
        database_steps: vec![],
        status: MigrationStatus::Applied,
        started_at: 1,
        finished_at: Some(2),
    }
}

#[test]
fn setting_the_log_up_twice_changes_nothing() {
    let log = MigrationLog::absent();
    assert_eq!(log.records, None);
    let once = log.init();
    assert_eq!(once.records, Some(vec![]));
    let (filled, outcome) = once.create(migration("m1", vec![create_model("User")]));
    assert_eq!(outcome, Ok(()));
    let twice = filled.clone().init();
    assert_eq!(twice, filled);
    assert_eq!(twice.init(), filled);
}

#[test]
fn a_migration_is_pending_until_it_is_finished_once() {
    let (log, outcome) = MigrationLog::absent().create(migration("m1", vec![]));
    assert_eq!(outcome, Err(PersistenceError::StoreMissing));
    assert_eq!(log, MigrationLog::absent());
    let (log, outcome) = log.finish(&"m1".to_string(), true, 5);
    assert_eq!(outcome, Err(PersistenceError::StoreMissing));

    let (log, outcome) = log.init().create(migration("m1", vec![]));
    assert_eq!(outcome, Ok(()));
    let records = log.records.clone().unwrap();
    assert_eq!(records.len(), 1);
    assert_eq!(records[0].status, MigrationStatus::Pending);
    assert_eq!(records[0].finished_at, None);
    assert_eq!(records[0].started_at, 1);

    let (log, outcome) = log.create(migration("m1", vec![create_model("User")]));
    assert_eq!(outcome, Err(PersistenceError::DuplicateMigration));
    assert_eq!(log.records.clone().unwrap(), records);

    let (log, outcome) = log.create(migration("m2", vec![]));
    assert_eq!(outcome, Ok(()));
    let (log, outcome) = log.finish(&"m3".to_string(), true, 5);
    assert_eq!(outcome, Err(PersistenceError::UnknownMigration));
    let (log, outcome) = log.finish(&"m2".to_string(), false, 7);
    assert_eq!(outcome, Ok(()));
    let (log, outcome) = log.finish(&"m1".to_string(), true, 9);
    assert_eq!(outcome, Ok(()));
    let finished = log.records.clone().unwrap();
    assert_eq!(finished[0].status, MigrationStatus::Applied);
    assert_eq!(finished[0].finished_at, Some(9));
    assert_eq!(finished[1].status, MigrationStatus::Failed);
    assert_eq!(finished[1].finished_at, Some(7));

    let (log, outcome) = log.finish(&"m1".to_string(), false, 11);
    assert_eq!(outcome, Err(PersistenceError::AlreadyFinished));
    let (log, outcome) = log.finish(&"m2".to_string(), true, 11);
    assert_eq!(outcome, Err(PersistenceError::AlreadyFinished));
    assert_eq!(log.records.unwrap(), finished);
}

#[test]
fn the_schema_in_force_is_what_applied_migrations_lead_to() {
    assert!(MigrationLog::absent().current_datamodel().same(&SchemaByName::empty()));
    assert!(MigrationLog::absent().init().current_datamodel().same(&SchemaByName::empty()));

    let first = vec![create_model("User"), create_model("Post")];
    let failed = vec![create_model("Ghost")];
    let pending = vec![create_model("Later")];
    let third = vec![
        MigrationStep::DeleteModel(DeleteModel { name: "Post".to_string() }),
        MigrationStep::CreateEnum(CreateEnum { name: "Color".to_string(), values: vec!["RED".to_string()] }),
    ];
    let log = MigrationLog::absent().init();
    let (log, _) = log.create(migration("m1", first.clone()));
    let (log, _) = log.finish(&"m1".to_string(), true, 2);
    let (log, _) = log.create(migration("m2", failed));
    let (log, _) = log.finish(&"m2".to_string(), false, 3);
    let (log, _) = log.create(migration("m3", third.clone()));
    let (log, _) = log.finish(&"m3".to_string(), true, 4);
    let (log, _) = log.create(migration("m4", pending));

    let current = log.current_datamodel();

    let expected = infer(infer(SchemaByName::empty(), &first), &third);
    assert!(current.same(&expected));
    assert!(current.models.contains(&"User".to_string()));
    assert!(!current.models.contains(&"Post".to_string()));
    assert!(!current.models.contains(&"Ghost".to_string()));
    assert!(!current.models.contains(&"Later".to_string()));
    assert!(current.enums.contains(&"Color".to_string()));

    let cleared = log.reset();
    assert_eq!(cleared, MigrationLog::absent());
    assert!(cleared.current_datamodel().same(&SchemaByName::empty()));
}

#[test]
fn the_log_is_set_up_by_a_statement_that_can_be_repeated() {
    assert_eq!(
        init_statement(SqlFamily::Postgres),
        "CREATE TABLE IF NOT EXISTS \"_Migration\" (\"name\" VARCHAR(255) NOT NULL, \"record\" TEXT NOT NULL, PRIMARY KEY (\"name\"))"
    );
    assert_eq!(
        init_statement(SqlFamily::Mysql),
        "CREATE TABLE IF NOT EXISTS `_Migration` (`name` VARCHAR(255) NOT NULL, `record` TEXT NOT NULL, PRIMARY KEY (`name`))"
    );
    assert_eq!(init_statement(SqlFamily::Sqlite), init_statement(SqlFamily::Sqlite));
    assert_eq!(reset_statement(SqlFamily::Sqlite), "DROP TABLE IF EXISTS \"_Migration\"");
    assert_eq!(reset_statement(SqlFamily::Mysql), "DROP TABLE IF EXISTS `_Migration`");
    assert_eq!(store_table().name, "_Migration");
    assert_eq!(store_table().columns.len(), 2);
}
