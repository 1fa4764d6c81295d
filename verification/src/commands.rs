//! The command that infers the migration steps from the current schema to a new one.

use crate::ast::SchemaAst;
use crate::datamodel_differ::{diff, diff_steps};
use crate::steps::MigrationStep;
use vstd::prelude::*;

verus! {

pub struct InferMigrationStepsInput {
    pub project_info: String,
    pub migration_id: String,
    pub data_model: String,
    pub assume_to_be_applied: Vec<MigrationStep>,
}

pub struct InferMigrationStepsCommand {
    input: InferMigrationStepsInput,
}

/// Where the current schema of a command comes from.
#[derive(Clone, Copy, Debug, PartialEq, Eq, Structural)]
pub enum CurrentSchemaSource {
    /// The schema that the persisted migrations lead to.
    Persisted,
    /// The schema that the steps of the input lead to, starting from the empty schema.
    Replayed,
}

/// The answer to the command: the steps on the schema, the rendered steps on the database,
/// and what went wrong.
pub struct MigrationStepsResultOutput {
    pub datamodel_steps: Vec<MigrationStep>,
    pub database_steps: Vec<String>,
    pub errors: Vec<String>,
    pub warnings: Vec<String>,
    pub general_errors: Vec<String>,
}

impl InferMigrationStepsCommand {
    pub closed spec fn input_of(&self) -> InferMigrationStepsInput {
        self.input
    }

    /// A command for an input.

    pub fn new(input: InferMigrationStepsInput) -> (command: Box<Self>)
        ensures
            command.input_of() == input,
    {
        Box::new(InferMigrationStepsCommand { input })
    }

    /// The input that the command was made with.
    pub fn input(&self) -> (input: &InferMigrationStepsInput)
        ensures
            *input == self.input_of(),
    {
        &self.input
    }

    /// The persisted schema is the current one unless the input says which steps to assume.
    pub fn current_schema_source(&self) -> (source: CurrentSchemaSource)
        ensures
            source == (if self.input_of().assume_to_be_applied@.len() == 0 {
                CurrentSchemaSource::Persisted
            } else {
                CurrentSchemaSource::Replayed
            }),
    {
        if self.input.assume_to_be_applied.is_empty() {
            CurrentSchemaSource::Persisted
        } else {
            CurrentSchemaSource::Replayed
        }
    }

    /// The steps from the current schema to the one that the input declares.
    pub fn datamodel_steps(
        &self,
        current_data_model: &SchemaAst,
        next_data_model: &SchemaAst,
    ) -> (steps: Vec<MigrationStep>)
        ensures
            steps.deep_view() == diff_steps(
                current_data_model.deep_view(),
                next_data_model.deep_view(),
            ),
    {
        diff(current_data_model, next_data_model)
    }

    /// The answer for the given steps: it reports no error and no warning.
    pub fn output(datamodel_steps: Vec<MigrationStep>, database_steps: Vec<String>) -> (result:
        MigrationStepsResultOutput)
        ensures
            result.datamodel_steps == datamodel_steps,
            result.database_steps == database_steps,
            result.errors@.len() == 0,
            result.warnings@.len() == 0,
            result.general_errors@.len() == 0,
    {
        MigrationStepsResultOutput {
            datamodel_steps,
            database_steps,
            errors: Vec::new(),
            warnings: Vec::new(),
            general_errors: Vec::new(),
        }
    }
}

} // verus!
