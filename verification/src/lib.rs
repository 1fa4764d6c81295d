//! Migrations of a database that is described by a declarative schema.
//!
//! Two versions of a schema are diffed into an ordered list of migration steps
//! (`datamodel_differ`); replaying the steps on the first version leads to the second
//! (`datamodel_calculator`, `replay`). The steps on the schema become operations on the
//! database (`sql_database_migration_inferrer`), which are checked for loss of data
//! (`sql_destructive_changes_checker`), rendered and applied
//! (`sql_renderer`, `sql_database_step_applier`) and recorded (`migration_persistence`).
//! `sql_migration_connector` decides how a connector to a database comes up. Nothing here
//! touches a database: connecting and running statements is left to the caller.

pub mod ast;
pub mod commands;
pub mod datamodel_calculator;
pub mod datamodel_differ;
pub mod dml;
pub mod dmmf;
pub mod keyed;
pub mod migration_persistence;
pub mod named_entries;
pub mod names;
pub mod replay;
pub mod sql_database_migration_inferrer;
pub mod sql_database_step_applier;
pub mod sql_destructive_changes_checker;
pub mod sql_migration;
pub mod sql_migration_connector;
pub mod sql_renderer;
pub mod sql_schema;
pub mod sql_schema_calculator;
pub mod sql_schema_differ;
pub mod steps;
pub mod validity;
