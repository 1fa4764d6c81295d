use schema_migrate::commands::{CurrentSchemaSource, InferMigrationStepsCommand, InferMigrationStepsInput};
use schema_migrate::sql_destructive_changes_checker::{check, DestructiveChangeWarning, Severity};
use schema_migrate::sql_migration::{SqlMigration, SqlMigrationStep};
use schema_migrate::sql_schema::{Column, ColumnType, ColumnTypeFamily, ForeignKey, Index, OnDelete, Table};
use schema_migrate::steps::{DeleteModel, MigrationStep};

fn column(name: &str, family: ColumnTypeFamily, size: Option<u32>, required: bool, default: Option<&str>) -> Column {
    Column {
        name: name.to_string(),
        tpe: ColumnType { family, size },
        required,
        default: default.map(|text| text.to_string()),
    }
}

fn warning(step: usize, severity: Severity, message: &str) -> DestructiveChangeWarning {
    DestructiveChangeWarning { step, severity, message: message.to_string() }
}

fn tables(names: &[&str]) -> Vec<String> {
    names.iter().map(|name| name.to_string()).collect()
}

#[test]
fn dropping_a_column_is_destructive() {
    let migration = SqlMigration {
        steps: vec![SqlMigrationStep::DropColumn { table: "User".to_string(), name: "age".to_string() }],
    };
    assert_eq!(
        check(&migration, &tables(&["User"])),
        vec![warning(0, Severity::DataLoss, "The column is dropped with all its values.")]
    );
}

#[test]
fn adding_a_nullable_column_without_default_is_safe() {
    let migration = SqlMigration {
        steps: vec![SqlMigrationStep::AddColumn {
            table: "User".to_string(),
            column: column("nickname", ColumnTypeFamily::String, None, false, None),
        }],
    };
    assert_eq!(check(&migration, &tables(&["User"])), vec![]);
    assert_eq!(check(&migration, &tables(&[])), vec![]);
}

#[test]
fn a_required_column_without_default_needs_an_empty_table() {
    let migration = SqlMigration {
        steps: vec![
            SqlMigrationStep::AddColumn {
                table: "User".to_string(),
                column: column("age", ColumnTypeFamily::Int, None, true, None),
            },
            SqlMigrationStep::AddColumn {
                table: "User".to_string(),
                column: column("kind", ColumnTypeFamily::Int, None, true, Some("1")),
            },
        ],
    };
    assert_eq!(
        check(&migration, &tables(&["Post", "User"])),
        vec![warning(
            0,
            Severity::MightFail,
            "A required column without a default is added to a table that has rows."
        )]
    );
    assert_eq!(check(&migration, &tables(&["Post"])), vec![]);
}

#[test]
fn each_destructive_step_is_named_by_its_position() {
    let wide = column("name", ColumnTypeFamily::String, Some(200), false, Some("x"));
    let narrow = column("name", ColumnTypeFamily::String, Some(20), false, Some("x"));
    let unlimited = column("name", ColumnTypeFamily::String, None, false, Some("x"));
    let no_default = column("name", ColumnTypeFamily::String, Some(200), false, None);
    let number = column("name", ColumnTypeFamily::Int, None, false, Some("x"));
    let alter = |previous: &Column, next: &Column| SqlMigrationStep::AlterColumn {
        table: "User".to_string(),
        previous: previous.clone(),
        next: next.clone(),
    };
    let migration = SqlMigration {
        steps: vec![
            SqlMigrationStep::CreateTable {
                table: Table {
                    name: "Blog".to_string(),
                    columns: vec![wide.clone()],
                    primary_key: None,
                    foreign_keys: vec![],
                    indexes: vec![],
                },
            },
            SqlMigrationStep::DropTable { name: "Post".to_string() },
            alter(&wide, &narrow),
            alter(&narrow, &wide),
            alter(&wide, &unlimited),
            alter(&unlimited, &wide),
            alter(&wide, &no_default),
            alter(&no_default, &wide),
            alter(&wide, &number),
            alter(&wide, &wide),
            SqlMigrationStep::CreateIndex {
                table: "User".to_string(),
                index: Index { name: "by_name".to_string(), columns: vec!["name".to_string()], unique: true },
            },
            SqlMigrationStep::DropIndex { table: "User".to_string(), name: "by_age".to_string() },
            SqlMigrationStep::AddForeignKey {
                table: "User".to_string(),
                foreign_key: ForeignKey {
                    name: "User_blog_fkey".to_string(),
                    columns: vec!["blog".to_string()],
                    referenced_table: "Blog".to_string(),
                    referenced_columns: vec!["id".to_string()],
                    on_delete: OnDelete::Cascade,
                },
            },
            SqlMigrationStep::DropForeignKey { table: "User".to_string(), name: "User_post_fkey".to_string() },
        ],
    };
    let narrowed = "The new column type cannot hold every value of the previous one.";
    assert_eq!(
        check(&migration, &tables(&["User", "Post"])),
        vec![
            warning(1, Severity::DataLoss, "The table is dropped with all its rows."),
            warning(2, Severity::DataLoss, narrowed),
            warning(5, Severity::DataLoss, narrowed),
            warning(6, Severity::MightFail, "The default of the column is removed."),
            warning(8, Severity::DataLoss, narrowed),
        ]
    );
    assert_eq!(check(&SqlMigration { steps: vec![] }, &tables(&["User"])), vec![]);
}

fn input(assume_to_be_applied: Vec<MigrationStep>) -> InferMigrationStepsInput {
    InferMigrationStepsInput {
        project_info: "".to_string(),
        migration_id: "m1".to_string(),
        data_model: "model User { id Int @id }".to_string(),
        assume_to_be_applied,
    }
}

#[test]
fn the_current_schema_is_persisted_unless_steps_are_assumed() {
    let command = InferMigrationStepsCommand::new(input(vec![]));
    assert_eq!(command.current_schema_source(), CurrentSchemaSource::Persisted);
    assert_eq!(command.input().migration_id, "m1");

    let assumed = vec![MigrationStep::DeleteModel(DeleteModel { name: "User".to_string() })];
    let command = InferMigrationStepsCommand::new(input(assumed));
    assert_eq!(command.current_schema_source(), CurrentSchemaSource::Replayed);
}

#[test]
fn the_answer_of_the_command_reports_no_error() {
    let steps = vec![MigrationStep::DeleteModel(DeleteModel { name: "User".to_string() })];
    let output = InferMigrationStepsCommand::output(steps.clone(), vec!["DROP TABLE \"User\"".to_string()]);
    assert_eq!(output.datamodel_steps, steps);
    assert_eq!(output.database_steps, vec!["DROP TABLE \"User\"".to_string()]);
    assert!(output.errors.is_empty());
    assert!(output.warnings.is_empty());
    assert!(output.general_errors.is_empty());
}
