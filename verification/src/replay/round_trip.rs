//! The steps of a diff lead from the previous schema to the next one.

use crate::ast::SchemaView;
use crate::datamodel_differ::top_level::{enums_of, models_of};
use crate::datamodel_differ::{diff_steps, enum_steps, model_steps};
use crate::keyed::{enum_by_name, keyed_by, keyed_schema};
use crate::replay::enums::{lemma_enum_steps_applied, with_enums};
use crate::replay::models::lemma_model_steps_applied;
use crate::replay::{apply_steps, lemma_apply_concat};
use crate::validity::valid_schema;
use vstd::prelude::*;

verus! {

/// Replaying the steps from a well-formed schema to another well-formed one on the first
/// gives a schema that is structurally equal to the second: both have the same keyed form.
pub proof fn lemma_replayed_diff_gives_next_schema(previous: SchemaView, next: SchemaView)
    requires
        valid_schema(previous),
        valid_schema(next),
    ensures
        apply_steps(keyed_schema(previous), diff_steps(previous, next)) == keyed_schema(next),
{
    let start = keyed_schema(previous);
    let on_enums = enum_steps(enums_of(previous.tops), enums_of(next.tops));
    let on_models = model_steps(models_of(previous.tops), models_of(next.tops));
    lemma_apply_concat(start, on_enums, on_models);
    lemma_enum_steps_applied(start, enums_of(previous.tops), enums_of(next.tops));
    let halfway = with_enums(start, keyed_by(enums_of(next.tops), enum_by_name()));
    lemma_model_steps_applied(halfway, models_of(previous.tops), models_of(next.tops));
}

} // verus!
