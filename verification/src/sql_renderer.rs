//! The statements of a migration as text, for each family of databases in its own dialect.

use crate::sql_migration::{SqlMigration, SqlMigrationStep, SqlStepView};
use crate::sql_migration_connector::SqlFamily;
use crate::sql_schema::{
    Column, ColumnType, ColumnTypeFamily, ColumnView, ForeignKey, ForeignKeyView, Index, IndexView,
    OnDelete, Table, TableView,
};
use vstd::prelude::*;
use vstd::string::StringExecFns;

verus! {

/// The mark that the family puts around a name.
pub open spec fn quote_mark(family: SqlFamily) -> Seq<char> {
    match family {
        SqlFamily::Mysql => "`"@,
        _ => "\""@,
    }
}

/// A name as the family writes it.
pub open spec fn quoted(family: SqlFamily, name: Seq<char>) -> Seq<char> {
    quote_mark(family) + name + quote_mark(family)
}

/// The first `n` names, quoted and separated by a comma and a space.
pub open spec fn quoted_list(family: SqlFamily, names: Seq<Seq<char>>, n: nat) -> Seq<char>
    decreases n,
{
    if n == 0 || n > names.len() {
        Seq::empty()
    } else if n == 1 {
        quoted(family, names[0])
    } else {
        quoted_list(family, names, (n - 1) as nat) + ", "@ + quoted(family, names[n - 1])
    }
}

pub open spec fn digit(d: nat) -> Seq<char> {
    if d == 0 {
        "0"@
    } else if d == 1 {
        "1"@
    } else if d == 2 {
        "2"@
    } else if d == 3 {
        "3"@
    } else if d == 4 {
        "4"@
    } else if d == 5 {
        "5"@
    } else if d == 6 {
        "6"@
    } else if d == 7 {
        "7"@
    } else if d == 8 {
        "8"@
    } else {
        "9"@
    }
}

/// A number in decimal digits.
pub open spec fn decimal(n: nat) -> Seq<char>
    decreases n,
{
    if n < 10 {
        digit(n)
    } else {
        decimal(n / 10) + digit(n % 10)
    }
}

pub open spec fn column_type_text(tpe: ColumnType) -> Seq<char> {
    match tpe.family {
        ColumnTypeFamily::Int => "INTEGER"@,
        ColumnTypeFamily::Float => "REAL"@,
        ColumnTypeFamily::Boolean => "BOOLEAN"@,
        ColumnTypeFamily::String => match tpe.size {
            Some(size) => "VARCHAR("@ + decimal(size as nat) + ")"@,
            None => "TEXT"@,
        },
        ColumnTypeFamily::DateTime => "TIMESTAMP"@,
        ColumnTypeFamily::Binary => "BLOB"@,
        ColumnTypeFamily::Json => "JSON"@,
        ColumnTypeFamily::Uuid => "UUID"@,
    }
}

pub open spec fn null_clause(required: bool) -> Seq<char> {
    if required {
        " NOT NULL"@
    } else {
        ""@
    }
}

pub open spec fn default_clause(default: Option<Seq<char>>) -> Seq<char> {
    match default {
        Some(value) => " DEFAULT "@ + value,
        None => ""@,
    }
}

/// A column as it stands in the definition of a table.
pub open spec fn column_definition(family: SqlFamily, column: ColumnView) -> Seq<char> {
    quoted(family, column.name) + " "@ + column_type_text(column.tpe) + null_clause(column.required)
        + default_clause(column.default)
}

/// The definitions of the first `n` columns, separated by a comma and a space.
pub open spec fn column_definitions(family: SqlFamily, columns: Seq<ColumnView>, n: nat) -> Seq<
    char,
>
    decreases n,
{
    if n == 0 || n > columns.len() {
        Seq::empty()
    } else if n == 1 {
        column_definition(family, columns[0])
    } else {
        column_definitions(family, columns, (n - 1) as nat) + ", "@ + column_definition(
            family,
            columns[n - 1],
        )
    }
}

pub open spec fn primary_key_clause(
    family: SqlFamily,
    columns: Seq<ColumnView>,
    key: Option<Seq<Seq<char>>>,
) -> Seq<char> {
    match key {
        Some(key) => (if columns.len() > 0 {
            ", "@
        } else {
            ""@
        }) + "PRIMARY KEY ("@ + quoted_list(family, key, key.len()) + ")"@,
        None => ""@,
    }
}

/// The name of a table and, in brackets, its columns and its primary key.
pub open spec fn table_definition(family: SqlFamily, table: TableView) -> Seq<char> {
    quoted(family, table.name) + " ("@ + column_definitions(
        family,
        table.columns,
        table.columns.len(),
    ) + primary_key_clause(family, table.columns, table.primary_key) + ")"@
}

pub open spec fn create_table_statement(family: SqlFamily, table: TableView) -> Seq<char> {
    "CREATE TABLE "@ + table_definition(family, table)
}

/// The change of a column: MySQL states the column anew, the others change its type, whether
/// it takes NULL, and its default.
pub open spec fn alter_column_statement(
    family: SqlFamily,
    table: Seq<char>,
    next: ColumnView,
) -> Seq<char> {
    match family {
        SqlFamily::Mysql => "ALTER TABLE "@ + quoted(family, table) + " MODIFY "@
            + column_definition(family, next),
        _ => "ALTER TABLE "@ + quoted(family, table) + " ALTER COLUMN "@ + quoted(
            family,
            next.name,
        ) + " TYPE "@ + column_type_text(next.tpe) + ", ALTER COLUMN "@ + quoted(family, next.name) + (
        if next.required {
            " SET NOT NULL"@
        } else {
            " DROP NOT NULL"@
        }) + ", ALTER COLUMN "@ + quoted(family, next.name) + (match next.default {
            Some(value) => " SET DEFAULT "@ + value,
            None => " DROP DEFAULT"@,
        }),
    }
}

pub open spec fn create_index_statement(
    family: SqlFamily,
    table: Seq<char>,
    index: IndexView,
) -> Seq<char> {
    (if index.unique {
        "CREATE UNIQUE INDEX "@
    } else {
        "CREATE INDEX "@
    }) + quoted(family, index.name) + " ON "@ + quoted(family, table) + " ("@ + quoted_list(
        family,
        index.columns,
        index.columns.len(),
    ) + ")"@
}

pub open spec fn on_delete_name(on_delete: OnDelete) -> Seq<char> {
    match on_delete {
        OnDelete::Restrict => "RESTRICT"@,
        OnDelete::Cascade => "CASCADE"@,
        OnDelete::SetNull => "SET NULL"@,
    }
}

pub open spec fn add_foreign_key_statement(
    family: SqlFamily,
    table: Seq<char>,
    key: ForeignKeyView,
) -> Seq<char> {
    "ALTER TABLE "@ + quoted(family, table) + " ADD CONSTRAINT "@ + quoted(family, key.name)
        + " FOREIGN KEY ("@ + quoted_list(family, key.columns, key.columns.len())
        + ") REFERENCES "@ + quoted(family, key.referenced_table) + " ("@ + quoted_list(
        family,
        key.referenced_columns,
        key.referenced_columns.len(),
    ) + ") ON DELETE "@ + on_delete_name(key.on_delete)
}

/// The statement of an operation in the dialect of the family.
pub open spec fn statement_of(family: SqlFamily, step: SqlStepView) -> Seq<char> {
    match step {
        SqlStepView::CreateTable { table } => create_table_statement(family, table),
        SqlStepView::DropTable { name } => "DROP TABLE "@ + quoted(family, name),
        SqlStepView::AddColumn { table, column } => "ALTER TABLE "@ + quoted(family, table)
            + " ADD COLUMN "@ + column_definition(family, column),
        SqlStepView::DropColumn { table, name } => "ALTER TABLE "@ + quoted(family, table)
            + " DROP COLUMN "@ + quoted(family, name),
        SqlStepView::AlterColumn { table, next, .. } => alter_column_statement(family, table, next),
        SqlStepView::CreateIndex { table, index } => create_index_statement(family, table, index),
        SqlStepView::DropIndex { table, name } => match family {
            SqlFamily::Mysql => "DROP INDEX "@ + quoted(family, name) + " ON "@ + quoted(
                family,
                table,
            ),
            _ => "DROP INDEX "@ + quoted(family, name),
        },
        SqlStepView::AddForeignKey { table, foreign_key } => add_foreign_key_statement(
            family,
            table,
            foreign_key,
        ),
        SqlStepView::DropForeignKey { table, name } => match family {
            SqlFamily::Mysql => "ALTER TABLE "@ + quoted(family, table) + " DROP FOREIGN KEY "@
                + quoted(family, name),
            _ => "ALTER TABLE "@ + quoted(family, table) + " DROP CONSTRAINT "@ + quoted(
                family,
                name,
            ),
        },
    }
}

/// The statements of a list of operations, one for each, in order.
pub open spec fn statements_of(family: SqlFamily, steps: Seq<SqlStepView>) -> Seq<Seq<char>> {
    Seq::new(steps.len(), |i: int| statement_of(family, steps[i]))
}

/// Appends a quoted name.
pub fn push_quoted(out: &mut String, family: SqlFamily, name: &str)
    ensures
        final(out)@ == old(out)@ + quoted(family, name@),
{
    let mark = match family {
        SqlFamily::Mysql => "`",
        _ => "\"",
    };
    out.append(mark);
    out.append(name);
    out.append(mark);
    assert(out@ =~= old(out)@ + quoted(family, name@));
}

/// Appends quoted names, separated by a comma and a space.
pub fn push_quoted_list(out: &mut String, family: SqlFamily, names: &Vec<String>)
    ensures
        final(out)@ == old(out)@ + quoted_list(family, names.deep_view(), names@.len()),
{
    let ghost start = out@;
    let ghost views = names.deep_view();
    let mut i: usize = 0;
    assert(out@ =~= start + quoted_list(family, views, 0));
    while i < names.len()
        invariant
            i <= names.len(),
            views == names.deep_view(),
            out@ == start + quoted_list(family, views, i as nat),
        decreases names.len() - i,
    {
        if i > 0 {
            out.append(", ");
        }
        push_quoted(out, family, names[i].as_str());
        assert(views[i as int] == names@[i as int]@);
        assert(out@ =~= start + quoted_list(family, views, (i + 1) as nat));
        i = i + 1;
    }
}

/// One decimal digit.
pub fn digit_text(d: u32) -> (text: &'static str)
    requires
        d < 10,
    ensures
        text@ == digit(d as nat),
{
    if d == 0 {
        "0"
    } else if d == 1 {
        "1"
    } else if d == 2 {
        "2"
    } else if d == 3 {
        "3"
    } else if d == 4 {
        "4"
    } else if d == 5 {
        "5"
    } else if d == 6 {
        "6"
    } else if d == 7 {
        "7"
    } else if d == 8 {
        "8"
    } else {
        "9"
    }
}

/// Appends a number in decimal digits.
pub fn push_decimal(out: &mut String, n: u32)
    ensures
        final(out)@ == old(out)@ + decimal(n as nat),
    decreases n,
{
    if n < 10 {
        out.append(digit_text(n));
    } else {
        push_decimal(out, n / 10);
        out.append(digit_text(n % 10));
        assert(out@ =~= old(out)@ + decimal(n as nat));
    }
}

/// Appends the name of a column type.
pub fn push_column_type(out: &mut String, tpe: &ColumnType)
    ensures
        final(out)@ == old(out)@ + column_type_text(*tpe),
{
    match tpe.family {
        ColumnTypeFamily::Int => out.append("INTEGER"),
        ColumnTypeFamily::Float => out.append("REAL"),
        ColumnTypeFamily::Boolean => out.append("BOOLEAN"),
        ColumnTypeFamily::String => match tpe.size {
            Some(size) => {
                out.append("VARCHAR(");
                push_decimal(out, size);
                out.append(")");
                assert(out@ =~= old(out)@ + column_type_text(*tpe));
            },
            None => out.append("TEXT"),
        },
        ColumnTypeFamily::DateTime => out.append("TIMESTAMP"),
        ColumnTypeFamily::Binary => out.append("BLOB"),
        ColumnTypeFamily::Json => out.append("JSON"),
        ColumnTypeFamily::Uuid => out.append("UUID"),
    }
}

/// Appends the definition of a column.
pub fn push_column_definition(out: &mut String, family: SqlFamily, column: &Column)
    ensures
        final(out)@ == old(out)@ + column_definition(family, column.deep_view()),
{
    push_quoted(out, family, column.name.as_str());
    out.append(" ");
    push_column_type(out, &column.tpe);
    if column.required {
        out.append(" NOT NULL");
    }
    match &column.default {
        Some(value) => {
            out.append(" DEFAULT ");
            out.append(value.as_str());
        },
        None => {},
    }
    proof {
        reveal_strlit("");
        assert(out@ =~= old(out)@ + column_definition(family, column.deep_view()));
    }
}

/// Appends the name of a table and, in brackets, its columns and its primary key.
pub fn push_table_definition(out: &mut String, family: SqlFamily, table: &Table)
    ensures
        final(out)@ == old(out)@ + table_definition(family, table.deep_view()),
{
    let ghost begin = out@;
    push_quoted(out, family, table.name.as_str());
    out.append(" (");
    let ghost start = out@;
    let ghost views = table.deep_view().columns;
    let mut i: usize = 0;
    assert(out@ =~= start + column_definitions(family, views, 0));
    while i < table.columns.len()
        invariant
            i <= table.columns.len(),
            views == table.deep_view().columns,
            out@ == start + column_definitions(family, views, i as nat),
        decreases table.columns.len() - i,
    {
        if i > 0 {
            out.append(", ");
        }
        push_column_definition(out, family, &table.columns[i]);
        assert(out@ =~= start + column_definitions(family, views, (i + 1) as nat));
        i = i + 1;
    }
    let ghost with_columns = out@;
    match &table.primary_key {
        Some(key) => {
            if table.columns.len() > 0 {
                out.append(", ");
            }
            out.append("PRIMARY KEY (");
            push_quoted_list(out, family, &key.columns);
            out.append(")");
        },
        None => {},
    }
    proof {
        reveal_strlit("");
        assert(out@ =~= with_columns + primary_key_clause(
            family,
            views,
            table.deep_view().primary_key,
        ));
    }
    out.append(")");
    assert(out@ =~= begin + table_definition(family, table.deep_view()));
}

/// Renders the creation of a table.

pub fn render_create_table(family: SqlFamily, table: &Table) -> (text: String)
    ensures
        text@ == create_table_statement(family, table.deep_view()),
{
    let mut out = String::from_str("CREATE TABLE ");
    push_table_definition(&mut out, family, table);
    out
}

/// Renders the change of a column to its next definition.

pub fn render_alter_column(family: SqlFamily, table: &String, next: &Column) -> (text: String)
    ensures
        text@ == alter_column_statement(family, table@, next.deep_view()),
{
    let mut out = String::from_str("ALTER TABLE ");
    push_quoted(&mut out, family, table.as_str());
    match family {
        SqlFamily::Mysql => {
            out.append(" MODIFY ");
            push_column_definition(&mut out, family, next);
        },
        _ => {
            out.append(" ALTER COLUMN ");
            push_quoted(&mut out, family, next.name.as_str());
            out.append(" TYPE ");
            push_column_type(&mut out, &next.tpe);
            out.append(", ALTER COLUMN ");
            push_quoted(&mut out, family, next.name.as_str());
            if next.required {
                out.append(" SET NOT NULL");
            } else {
                out.append(" DROP NOT NULL");
            }
            out.append(", ALTER COLUMN ");
            push_quoted(&mut out, family, next.name.as_str());
            match &next.default {
                Some(value) => {
                    out.append(" SET DEFAULT ");
                    out.append(value.as_str());
                },
                None => {
                    out.append(" DROP DEFAULT");
                },
            }
        },
    }
    assert(out@ =~= alter_column_statement(family, table@, next.deep_view()));
    out
}

/// Renders the creation of an index.

pub fn render_create_index(family: SqlFamily, table: &String, index: &Index) -> (text: String)
    ensures
        text@ == create_index_statement(family, table@, index.deep_view()),
{
    let mut out = if index.unique {
        String::from_str("CREATE UNIQUE INDEX ")
    } else {
        String::from_str("CREATE INDEX ")
    };
    push_quoted(&mut out, family, index.name.as_str());
    out.append(" ON ");
    push_quoted(&mut out, family, table.as_str());
    out.append(" (");
    push_quoted_list(&mut out, family, &index.columns);
    out.append(")");
    assert(out@ =~= create_index_statement(family, table@, index.deep_view()));
    out
}

/// Renders the addition of a foreign key.

pub fn render_add_foreign_key(family: SqlFamily, table: &String, key: &ForeignKey) -> (text:
    String)
    ensures
        text@ == add_foreign_key_statement(family, table@, key.deep_view()),
{
    let mut out = String::from_str("ALTER TABLE ");
    push_quoted(&mut out, family, table.as_str());
    out.append(" ADD CONSTRAINT ");
    push_quoted(&mut out, family, key.name.as_str());
    out.append(" FOREIGN KEY (");
    push_quoted_list(&mut out, family, &key.columns);
    out.append(") REFERENCES ");
    push_quoted(&mut out, family, key.referenced_table.as_str());
    out.append(" (");
    push_quoted_list(&mut out, family, &key.referenced_columns);
    out.append(") ON DELETE ");
    match key.on_delete {
        OnDelete::Restrict => out.append("RESTRICT"),
        OnDelete::Cascade => out.append("CASCADE"),
        OnDelete::SetNull => out.append("SET NULL"),
    }
    assert(out@ =~= add_foreign_key_statement(family, table@, key.deep_view()));
    out
}

/// Renders one operation in the dialect of the family.
pub fn render_step(family: SqlFamily, step: &SqlMigrationStep) -> (text: String)
    ensures
        text@ == statement_of(family, step.deep_view()),
{
    match step {
        SqlMigrationStep::CreateTable { table } => render_create_table(family, table),
        SqlMigrationStep::DropTable { name } => {
            let mut out = String::from_str("DROP TABLE ");
            push_quoted(&mut out, family, name.as_str());
            out
        },
        SqlMigrationStep::AddColumn { table, column } => {
            let mut out = String::from_str("ALTER TABLE ");
            push_quoted(&mut out, family, table.as_str());
            out.append(" ADD COLUMN ");
            push_column_definition(&mut out, family, column);
            out
        },
        SqlMigrationStep::DropColumn { table, name } => {
            let mut out = String::from_str("ALTER TABLE ");
            push_quoted(&mut out, family, table.as_str());
            out.append(" DROP COLUMN ");
            push_quoted(&mut out, family, name.as_str());
            out
        },
        SqlMigrationStep::AlterColumn { table, next, .. } => render_alter_column(family, table, next),
        SqlMigrationStep::CreateIndex { table, index } => render_create_index(family, table, index),
        SqlMigrationStep::DropIndex { table, name } => {
            let mut out = String::from_str("DROP INDEX ");
            push_quoted(&mut out, family, name.as_str());
            match family {
                SqlFamily::Mysql => {
                    out.append(" ON ");
                    push_quoted(&mut out, family, table.as_str());
                },
                _ => {},
            }
            out
        },
        SqlMigrationStep::AddForeignKey { table, foreign_key } => render_add_foreign_key(
            family,
            table,
            foreign_key,
        ),
        SqlMigrationStep::DropForeignKey { table, name } => {
            let mut out = String::from_str("ALTER TABLE ");
            push_quoted(&mut out, family, table.as_str());
            match family {
                SqlFamily::Mysql => out.append(" DROP FOREIGN KEY "),
                _ => out.append(" DROP CONSTRAINT "),
            }
            push_quoted(&mut out, family, name.as_str());
            out
        },
    }
}

/// Renders a migration: one statement for each operation, in order.
pub fn render(migration: &SqlMigration, family: SqlFamily) -> (statements: Vec<String>)
    ensures
        statements.deep_view() == statements_of(family, migration.deep_view()),
{
    let mut statements: Vec<String> = Vec::new();
    let mut i: usize = 0;
    while i < migration.steps.len()
        invariant
            i <= migration.steps.len(),
            statements@.len() == i,
            forall|j: int|
                0 <= j < i ==> (#[trigger] statements@[j])@ == statement_of(
                    family,
                    migration.steps@[j].deep_view(),
                ),
        decreases migration.steps.len() - i,
    {
        statements.push(render_step(family, &migration.steps[i]));
        i = i + 1;
    }
    assert(statements.deep_view() =~= statements_of(family, migration.deep_view()));
    statements
}

} // verus!
