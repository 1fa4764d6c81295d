use schema_migrate::sql_database_step_applier::{
    advance, start, supports_transactional_ddl, ApplyAction, ApplyEvent, ApplyFailure, ApplyState,
};
use schema_migrate::sql_migration::{SqlMigration, SqlMigrationStep};
use schema_migrate::sql_migration_connector::SqlFamily;
use schema_migrate::sql_renderer::{render, render_step};
use schema_migrate::sql_schema::{
    Column, ColumnType, ColumnTypeFamily, ForeignKey, Index, OnDelete, PrimaryKey, Table,
};

fn sized(name: &str, family: ColumnTypeFamily, size: Option<u32>, required: bool, default: Option<&str>) -> Column {
    Column {
        name: name.to_string(),
        tpe: ColumnType { family, size },
        required,
        default: default.map(|text| text.to_string()),
    }
}

fn list(items: &[&str]) -> Vec<String> {
    items.iter().map(|item| item.to_string()).collect()
}

fn people() -> Table {
    Table {
        name: "people".to_string(),
        columns: vec![
            sized("id", ColumnTypeFamily::Int, None, true, None),
            sized("name", ColumnTypeFamily::String, Some(255), true, Some("'x'")),
            sized("bio", ColumnTypeFamily::String, None, false, None),
        ],
        primary_key: Some(PrimaryKey { columns: list(&["id", "name"]) }),
        foreign_keys: vec![],
        indexes: vec![],
    }
}

#[test]
fn a_table_is_created_with_its_columns_and_key() {
    let create = SqlMigrationStep::CreateTable { table: people() };
    assert_eq!(
        render_step(SqlFamily::Postgres, &create),
        "CREATE TABLE \"people\" (\"id\" INTEGER NOT NULL, \"name\" VARCHAR(255) NOT NULL DEFAULT 'x', \"bio\" TEXT, PRIMARY KEY (\"id\", \"name\"))"
    );
    assert_eq!(
        render_step(SqlFamily::Mysql, &create),
        "CREATE TABLE `people` (`id` INTEGER NOT NULL, `name` VARCHAR(255) NOT NULL DEFAULT 'x', `bio` TEXT, PRIMARY KEY (`id`, `name`))"
    );
    let mut keyless = people();
    keyless.primary_key = None;
    keyless.columns.truncate(1);
    assert_eq!(
        render_step(SqlFamily::Sqlite, &SqlMigrationStep::CreateTable { table: keyless.clone() }),
        "CREATE TABLE \"people\" (\"id\" INTEGER NOT NULL)"
    );
    keyless.columns.clear();
    assert_eq!(
        render_step(SqlFamily::Sqlite, &SqlMigrationStep::CreateTable { table: keyless.clone() }),
        "CREATE TABLE \"people\" ()"
    );
    keyless.primary_key = Some(PrimaryKey { columns: list(&["a"]) });
    assert_eq!(
        render_step(SqlFamily::Sqlite, &SqlMigrationStep::CreateTable { table: keyless }),
        "CREATE TABLE \"people\" (PRIMARY KEY (\"a\"))"
    );
}

#[test]
fn column_types_are_named() {
    let render_type = |family: ColumnTypeFamily, size: Option<u32>| {
        render_step(
            SqlFamily::Postgres,
            &SqlMigrationStep::AddColumn { table: "t".to_string(), column: sized("c", family, size, false, None) },
        )
    };
    assert_eq!(render_type(ColumnTypeFamily::Int, None), "ALTER TABLE \"t\" ADD COLUMN \"c\" INTEGER");
    assert_eq!(render_type(ColumnTypeFamily::Float, Some(3)), "ALTER TABLE \"t\" ADD COLUMN \"c\" REAL");
    assert_eq!(render_type(ColumnTypeFamily::Boolean, None), "ALTER TABLE \"t\" ADD COLUMN \"c\" BOOLEAN");
    assert_eq!(render_type(ColumnTypeFamily::String, None), "ALTER TABLE \"t\" ADD COLUMN \"c\" TEXT");
    assert_eq!(render_type(ColumnTypeFamily::String, Some(0)), "ALTER TABLE \"t\" ADD COLUMN \"c\" VARCHAR(0)");
    assert_eq!(render_type(ColumnTypeFamily::String, Some(10)), "ALTER TABLE \"t\" ADD COLUMN \"c\" VARCHAR(10)");
    assert_eq!(
        render_type(ColumnTypeFamily::String, Some(4294967295)),
        "ALTER TABLE \"t\" ADD COLUMN \"c\" VARCHAR(4294967295)"
    );
    assert_eq!(render_type(ColumnTypeFamily::DateTime, None), "ALTER TABLE \"t\" ADD COLUMN \"c\" TIMESTAMP");
    assert_eq!(render_type(ColumnTypeFamily::Binary, None), "ALTER TABLE \"t\" ADD COLUMN \"c\" BLOB");
    assert_eq!(render_type(ColumnTypeFamily::Json, None), "ALTER TABLE \"t\" ADD COLUMN \"c\" JSON");
    assert_eq!(render_type(ColumnTypeFamily::Uuid, None), "ALTER TABLE \"t\" ADD COLUMN \"c\" UUID");
}

#[test]
fn each_family_has_its_dialect() {
    let table = || "t".to_string();
    let alter = SqlMigrationStep::AlterColumn {
        table: table(),
        previous: sized("c", ColumnTypeFamily::Int, None, false, None),
        next: sized("c", ColumnTypeFamily::String, None, true, Some("1")),
    };
    assert_eq!(
        render_step(SqlFamily::Postgres, &alter),
        "ALTER TABLE \"t\" ALTER COLUMN \"c\" TYPE TEXT, ALTER COLUMN \"c\" SET NOT NULL, ALTER COLUMN \"c\" SET DEFAULT 1"
    );
    assert_eq!(render_step(SqlFamily::Mysql, &alter), "ALTER TABLE `t` MODIFY `c` TEXT NOT NULL DEFAULT 1");
    let relax = SqlMigrationStep::AlterColumn {
        table: table(),
        previous: sized("c", ColumnTypeFamily::Int, None, true, Some("1")),
        next: sized("c", ColumnTypeFamily::Int, None, false, None),
    };
    assert_eq!(
        render_step(SqlFamily::Sqlite, &relax),
        "ALTER TABLE \"t\" ALTER COLUMN \"c\" TYPE INTEGER, ALTER COLUMN \"c\" DROP NOT NULL, ALTER COLUMN \"c\" DROP DEFAULT"
    );

    let drop_index = SqlMigrationStep::DropIndex { table: table(), name: "i".to_string() };
    assert_eq!(render_step(SqlFamily::Postgres, &drop_index), "DROP INDEX \"i\"");
    assert_eq!(render_step(SqlFamily::Mysql, &drop_index), "DROP INDEX `i` ON `t`");
    let drop_key = SqlMigrationStep::DropForeignKey { table: table(), name: "k".to_string() };
    assert_eq!(render_step(SqlFamily::Postgres, &drop_key), "ALTER TABLE \"t\" DROP CONSTRAINT \"k\"");
    assert_eq!(render_step(SqlFamily::Mysql, &drop_key), "ALTER TABLE `t` DROP FOREIGN KEY `k`");
}

#[test]
fn a_migration_is_rendered_statement_by_statement() {
    let key = |on_delete: OnDelete| ForeignKey {
        name: "t_owner_fkey".to_string(),
        columns: list(&["owner", "kind"]),
        referenced_table: "people".to_string(),
        referenced_columns: list(&["id", "kind"]),
        on_delete,
    };
    let migration = SqlMigration {
        steps: vec![
            SqlMigrationStep::DropTable { name: "old".to_string() },
            SqlMigrationStep::DropColumn { table: "t".to_string(), name: "c".to_string() },
            SqlMigrationStep::CreateIndex {
                table: "t".to_string(),
                index: Index { name: "t_a_key".to_string(), columns: list(&["a"]), unique: true },
            },
            SqlMigrationStep::CreateIndex {
                table: "t".to_string(),
                index: Index { name: "t_ab".to_string(), columns: list(&["a", "b"]), unique: false },
            },
            SqlMigrationStep::AddForeignKey { table: "t".to_string(), foreign_key: key(OnDelete::Cascade) },
            SqlMigrationStep::AddForeignKey { table: "t".to_string(), foreign_key: key(OnDelete::SetNull) },
            SqlMigrationStep::AddForeignKey { table: "t".to_string(), foreign_key: key(OnDelete::Restrict) },
        ],
    };
    let constraint = "ALTER TABLE \"t\" ADD CONSTRAINT \"t_owner_fkey\" FOREIGN KEY (\"owner\", \"kind\") REFERENCES \"people\" (\"id\", \"kind\") ON DELETE ";
    assert_eq!(
        render(&migration, SqlFamily::Postgres),
        vec![
            "DROP TABLE \"old\"".to_string(),
            "ALTER TABLE \"t\" DROP COLUMN \"c\"".to_string(),
            "CREATE UNIQUE INDEX \"t_a_key\" ON \"t\" (\"a\")".to_string(),
            "CREATE INDEX \"t_ab\" ON \"t\" (\"a\", \"b\")".to_string(),
            format!("{}CASCADE", constraint),
            format!("{}SET NULL", constraint),
            format!("{}RESTRICT", constraint),
        ]
    );
    assert_eq!(render(&SqlMigration { steps: vec![] }, SqlFamily::Mysql), Vec::<String>::new());
}

fn failed(error: &str) -> ApplyEvent {
    ApplyEvent::Failed { error: error.to_string() }
}

fn run(statement: &str) -> ApplyAction {
    ApplyAction::Execute { statement: statement.to_string() }
}

#[test]
fn a_migration_runs_in_one_transaction_where_the_engine_has_one() {
    let statements = list(&["A", "B"]);
    assert!(supports_transactional_ddl(SqlFamily::Postgres));
    assert!(supports_transactional_ddl(SqlFamily::Sqlite));
    assert!(!supports_transactional_ddl(SqlFamily::Mysql));

    let (state, action) = start(SqlFamily::Postgres, &statements);
    assert_eq!((&state, &action), (&ApplyState::Beginning, &ApplyAction::Begin));
    let (state, action) = advance(SqlFamily::Postgres, &statements, state, ApplyEvent::Succeeded);
    assert_eq!((&state, &action), (&ApplyState::Running { position: 0 }, &run("A")));
    let (state, action) = advance(SqlFamily::Postgres, &statements, state, ApplyEvent::Succeeded);
    assert_eq!((&state, &action), (&ApplyState::Running { position: 1 }, &run("B")));
    let (state, action) = advance(SqlFamily::Postgres, &statements, state, ApplyEvent::Succeeded);
    assert_eq!((&state, &action), (&ApplyState::Committing, &ApplyAction::Commit));
    let (state, action) = advance(SqlFamily::Postgres, &statements, state, ApplyEvent::Succeeded);
    assert_eq!((&state, &action), (&ApplyState::Finished, &ApplyAction::Done));
    let (state, action) = advance(SqlFamily::Postgres, &statements, state, failed("late"));
    assert_eq!((&state, &action), (&ApplyState::Finished, &ApplyAction::Ignore));

    let none: Vec<String> = vec![];
    let (state, _) = start(SqlFamily::Sqlite, &none);
    assert_eq!(
        advance(SqlFamily::Sqlite, &none, state, ApplyEvent::Succeeded),
        (ApplyState::Committing, ApplyAction::Commit)
    );
    assert_eq!(start(SqlFamily::Mysql, &none), (ApplyState::Finished, ApplyAction::Done));
}

#[test]
fn a_failure_names_the_statement_and_what_stays_applied() {
    let statements = list(&["A", "B", "C"]);

    let running = ApplyState::Running { position: 1 };
    let (state, action) = advance(SqlFamily::Postgres, &statements, running.clone(), failed("boom"));
    let taken_back = ApplyFailure { statement: "B".to_string(), error: "boom".to_string(), applied: 0 };
    assert_eq!(state, ApplyState::RollingBack { failure: taken_back.clone() });
    assert_eq!(action, ApplyAction::RollBack);
    assert_eq!(
        advance(SqlFamily::Postgres, &statements, state.clone(), ApplyEvent::Succeeded),
        (ApplyState::Failed { failure: taken_back.clone() }, ApplyAction::Report)
    );
    assert_eq!(
        advance(SqlFamily::Postgres, &statements, state, failed("again")),
        (ApplyState::Failed { failure: taken_back.clone() }, ApplyAction::Report)
    );

    assert_eq!(start(SqlFamily::Mysql, &statements), (ApplyState::Running { position: 0 }, run("A")));
    assert_eq!(
        advance(SqlFamily::Mysql, &statements, running, failed("boom")),
        (
            ApplyState::Failed {
                failure: ApplyFailure { statement: "B".to_string(), error: "boom".to_string(), applied: 1 }
            },
            ApplyAction::Report
        )
    );
    assert_eq!(
        advance(SqlFamily::Mysql, &statements, ApplyState::Running { position: 2 }, ApplyEvent::Succeeded),
        (ApplyState::Finished, ApplyAction::Done)
    );

    assert_eq!(
        advance(SqlFamily::Postgres, &statements, ApplyState::Beginning, failed("no")),
        (
            ApplyState::Failed {
                failure: ApplyFailure { statement: "BEGIN".to_string(), error: "no".to_string(), applied: 0 }
            },
            ApplyAction::Report
        )
    );
    assert_eq!(
        advance(SqlFamily::Postgres, &statements, ApplyState::Committing, failed("no")),
        (
            ApplyState::Failed {
                failure: ApplyFailure { statement: "COMMIT".to_string(), error: "no".to_string(), applied: 0 }
            },
            ApplyAction::Report
        )
    );
    let stray = ApplyState::Running { position: 7 };
    assert_eq!(
        advance(SqlFamily::Mysql, &statements, stray.clone(), ApplyEvent::Succeeded),
        (stray.clone(), ApplyAction::Ignore)
    );
    assert_eq!(advance(SqlFamily::Mysql, &statements, stray.clone(), failed("x")), (stray, ApplyAction::Ignore));
    let over = ApplyState::Failed { failure: taken_back };
    assert_eq!(
        advance(SqlFamily::Postgres, &statements, over.clone(), ApplyEvent::Succeeded),
        (over, ApplyAction::Ignore)
    );
}
