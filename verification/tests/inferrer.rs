use schema_migrate::ast::{
    Argument, Directive, Expression, Field, FieldArity, Identifier, Model, SchemaAst, Top,
};
use schema_migrate::datamodel_differ::diff;
use schema_migrate::sql_database_migration_inferrer::{infer, CurrentState};
use schema_migrate::sql_migration::SqlMigrationStep;
use schema_migrate::sql_migration_connector::SqlFamily;
use schema_migrate::sql_schema::{
    Column, ColumnType, ColumnTypeFamily, ForeignKey, Index, OnDelete, PrimaryKey, SqlSchema, Table,
};
use schema_migrate::sql_schema_calculator::calculate_sql_schema;
use schema_migrate::sql_schema_differ::diff_schemas;

fn word(name: &str) -> Identifier {
    Identifier { name: name.to_string() }
}

fn mark(name: &str) -> Directive {
    Directive { name: word(name), arguments: vec![] }
}

fn mapped(to: &str) -> Directive {
    Directive {
        name: word("map"),
        arguments: vec![Argument { name: word(""), value: Expression::StringValue(to.to_string()) }],
    }
}

fn defaulted(value: &str) -> Directive {
    Directive {
        name: word("default"),
        arguments: vec![Argument { name: word(""), value: Expression::NumericValue(value.to_string()) }],
    }
}

fn declared_field(name: &str, tpe: &str, arity: FieldArity, directives: Vec<Directive>) -> Field {
    Field { field_type: word(tpe), name: word(name), arity, directives }
}

fn declared_model(name: &str, fields: Vec<Field>, directives: Vec<Directive>) -> Top {
    Top::Model(Model { name: word(name), fields, directives })
}

fn plain_column(name: &str, family: ColumnTypeFamily, required: bool, default: Option<&str>) -> Column {
    Column {
        name: name.to_string(),
        tpe: ColumnType { family, size: None },
        required,
        default: default.map(|text| text.to_string()),
    }
}

fn names(list: &[&str]) -> Vec<String> {
    list.iter().map(|name| name.to_string()).collect()
}

fn blog_schema() -> SchemaAst {
    SchemaAst {
        tops: vec![
            declared_model(
                "User",
                vec![
                    declared_field("id", "Int", FieldArity::Required, vec![mark("id")]),
                    declared_field("email", "String", FieldArity::Required, vec![mark("unique"), mapped("mail")]),
                    declared_field("posts", "Post", FieldArity::List, vec![]),
                    declared_field("mood", "Mood", FieldArity::Optional, vec![]),
                ],
                vec![mapped("users")],
            ),
            declared_model(
                "Post",
                vec![
                    declared_field("id", "Int", FieldArity::Required, vec![mark("id")]),
                    declared_field("author", "User", FieldArity::Required, vec![]),
                    declared_field("editor", "User", FieldArity::Optional, vec![mapped("editor_id")]),
                    declared_field("views", "Int", FieldArity::Required, vec![defaulted("0")]),
                    declared_field("rating", "Float", FieldArity::Optional, vec![]),
                    declared_field("draft", "Boolean", FieldArity::Required, vec![]),
                    declared_field("at", "DateTime", FieldArity::Required, vec![]),
                ],
                vec![],
            ),
        ],
    }
}

fn users_table() -> Table {
    Table {
        name: "users".to_string(),
        columns: vec![
            plain_column("id", ColumnTypeFamily::Int, true, None),
            plain_column("mail", ColumnTypeFamily::String, true, None),
            plain_column("mood", ColumnTypeFamily::String, false, None),
        ],
        primary_key: Some(PrimaryKey { columns: names(&["id"]) }),
        foreign_keys: vec![],
        indexes: vec![Index { name: "users_mail_key".to_string(), columns: names(&["mail"]), unique: true }],
    }
}

fn author_key() -> ForeignKey {
    ForeignKey {
        name: "Post_author_fkey".to_string(),
        columns: names(&["author"]),
        referenced_table: "users".to_string(),
        referenced_columns: names(&["id"]),
        on_delete: OnDelete::Cascade,
    }
}

fn editor_key() -> ForeignKey {
    ForeignKey {
        name: "Post_editor_id_fkey".to_string(),
        columns: names(&["editor_id"]),
        referenced_table: "users".to_string(),
        referenced_columns: names(&["id"]),
        on_delete: OnDelete::SetNull,
    }
}

fn post_table() -> Table {
    Table {
        name: "Post".to_string(),
        columns: vec![
            plain_column("id", ColumnTypeFamily::Int, true, None),
            plain_column("author", ColumnTypeFamily::Int, true, None),
            plain_column("editor_id", ColumnTypeFamily::Int, false, None),
            plain_column("views", ColumnTypeFamily::Int, true, Some("0")),
            plain_column("rating", ColumnTypeFamily::Float, false, None),
            plain_column("draft", ColumnTypeFamily::Boolean, true, None),
            plain_column("at", ColumnTypeFamily::DateTime, true, None),
        ],
        primary_key: Some(PrimaryKey { columns: names(&["id"]) }),
        foreign_keys: vec![author_key(), editor_key()],
        indexes: vec![],
    }
}

#[test]
fn a_declared_schema_is_held_by_tables() {
    assert_eq!(calculate_sql_schema(&blog_schema()), SqlSchema { tables: vec![users_table(), post_table()] });
    assert_eq!(calculate_sql_schema(&SchemaAst { tops: vec![] }), SqlSchema { tables: vec![] });
    let keyless = SchemaAst {
        tops: vec![declared_model("Log", vec![declared_field("line", "String", FieldArity::Required, vec![])], vec![])],
    };
    assert_eq!(calculate_sql_schema(&keyless).tables[0].primary_key, None);
}

#[test]
fn a_new_database_gets_tables_before_constraints() {
    let nothing = SchemaAst { tops: vec![] };
    let steps = diff(&nothing, &blog_schema());

    let migration = infer(&CurrentState::Declarative(nothing), &blog_schema(), &steps, SqlFamily::Postgres);

    assert_eq!(
        migration.steps,
        vec![
            SqlMigrationStep::CreateTable { table: users_table() },
            SqlMigrationStep::CreateTable { table: post_table() },
            SqlMigrationStep::CreateIndex { table: "users".to_string(), index: users_table().indexes[0].clone() },
            SqlMigrationStep::AddForeignKey { table: "Post".to_string(), foreign_key: author_key() },
            SqlMigrationStep::AddForeignKey { table: "Post".to_string(), foreign_key: editor_key() },
        ]
    );
}

#[test]
fn foreign_keys_are_dropped_before_the_table_they_refer_to() {
    let only_posts = SchemaAst {
        tops: vec![declared_model(
            "Post",
            vec![declared_field("id", "Int", FieldArity::Required, vec![mark("id")])],
            vec![],
        )],
    };
    let steps = diff(&blog_schema(), &only_posts);

    let migration = infer(
        &CurrentState::Introspected(SqlSchema { tables: vec![users_table(), post_table()] }),
        &only_posts,
        &steps,
        SqlFamily::Mysql,
    );

    let drop_column = |name: &str| SqlMigrationStep::DropColumn { table: "Post".to_string(), name: name.to_string() };
    assert_eq!(
        migration.steps,
        vec![
            SqlMigrationStep::DropForeignKey { table: "Post".to_string(), name: "Post_author_fkey".to_string() },
            SqlMigrationStep::DropForeignKey { table: "Post".to_string(), name: "Post_editor_id_fkey".to_string() },
            drop_column("author"),
            drop_column("editor_id"),
            drop_column("views"),
            drop_column("rating"),
            drop_column("draft"),
            drop_column("at"),
            SqlMigrationStep::DropTable { name: "users".to_string() },
        ]
    );
}

#[test]
fn an_unchanged_declaration_leaves_the_database_alone() {
    let live = SqlSchema {
        tables: vec![Table {
            name: "legacy".to_string(),
            columns: vec![plain_column("x", ColumnTypeFamily::Binary, false, Some("nextval('s')"))],
            primary_key: None,
            foreign_keys: vec![],
            indexes: vec![],
        }],
    };
    let migration = infer(&CurrentState::Introspected(live), &blog_schema(), &vec![], SqlFamily::Postgres);
    assert_eq!(migration.steps, vec![]);

    let same = infer(
        &CurrentState::Declarative(blog_schema()),
        &blog_schema(),
        &diff(&SchemaAst { tops: vec![] }, &blog_schema()),
        SqlFamily::Postgres,
    );
    assert_eq!(same.steps, vec![]);
}

#[test]
fn a_changed_column_is_altered_where_the_engine_can() {
    let before = SqlSchema {
        tables: vec![Table {
            name: "users".to_string(),
            columns: vec![
                plain_column("id", ColumnTypeFamily::Int, true, None),
                plain_column("age", ColumnTypeFamily::Int, true, None),
                plain_column("gone", ColumnTypeFamily::Int, true, None),
            ],
            primary_key: Some(PrimaryKey { columns: names(&["id"]) }),
            foreign_keys: vec![],
            indexes: vec![
                Index { name: "by_age".to_string(), columns: names(&["age"]), unique: false },
                Index { name: "by_id".to_string(), columns: names(&["id"]), unique: true },
            ],
        }],
    };
    let mut after = before.clone();
    after.tables[0].columns[1] = plain_column("age", ColumnTypeFamily::String, false, None);
    after.tables[0].columns[2] = plain_column("fresh", ColumnTypeFamily::Json, false, None);
    after.tables[0].indexes[0] = Index { name: "by_age".to_string(), columns: names(&["age"]), unique: true };

    let drop_index = SqlMigrationStep::DropIndex { table: "users".to_string(), name: "by_age".to_string() };
    let add_fresh = SqlMigrationStep::AddColumn {
        table: "users".to_string(),
        column: plain_column("fresh", ColumnTypeFamily::Json, false, None),
    };
    let drop_gone = SqlMigrationStep::DropColumn { table: "users".to_string(), name: "gone".to_string() };
    let create_index =
        SqlMigrationStep::CreateIndex { table: "users".to_string(), index: after.tables[0].indexes[0].clone() };

    assert_eq!(
        diff_schemas(&before, &after, SqlFamily::Postgres),
        vec![
            drop_index.clone(),
            add_fresh.clone(),
            SqlMigrationStep::AlterColumn {
                table: "users".to_string(),
                previous: plain_column("age", ColumnTypeFamily::Int, true, None),
                next: plain_column("age", ColumnTypeFamily::String, false, None),
            },
            drop_gone.clone(),
            create_index.clone(),
        ]
    );
    assert_eq!(
        diff_schemas(&before, &after, SqlFamily::Sqlite),
        vec![
            drop_index,
            add_fresh,
            SqlMigrationStep::DropColumn { table: "users".to_string(), name: "age".to_string() },
            SqlMigrationStep::AddColumn {
                table: "users".to_string(),
                column: plain_column("age", ColumnTypeFamily::String, false, None),
            },
            drop_gone,
            create_index,
        ]
    );
    assert_eq!(diff_schemas(&before, &before, SqlFamily::Mysql), vec![]);
}
