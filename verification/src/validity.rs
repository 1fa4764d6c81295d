//! Which schemas are well formed: within each scope, no name is used twice.

use crate::ast::{DirectiveView, EnumView, FieldView, ModelView, SchemaView};
use crate::datamodel_differ::top_level::{enums_of, models_of};
use crate::names::Keyed;
use vstd::prelude::*;

verus! {

/// No two items have the same name.
pub open spec fn distinct_keys<T: Keyed>(items: Seq<T>) -> bool {
    forall|i: int, j: int|
        0 <= i < j < items.len() ==> (#[trigger] items[i]).key() != (#[trigger] items[j]).key()
}

/// No two directives have the same name, and within a directive no two arguments have.
pub open spec fn valid_directives(directives: Seq<DirectiveView>) -> bool {
    &&& distinct_keys(directives)
    &&& forall|i: int|
        0 <= i < directives.len() ==> distinct_keys((#[trigger] directives[i]).arguments)
}

pub open spec fn valid_enum(e: EnumView) -> bool {
    &&& distinct_keys(e.values)
    &&& valid_directives(e.directives)
}

pub open spec fn valid_field(field: FieldView) -> bool {
    valid_directives(field.directives)
}

pub open spec fn valid_model(model: ModelView) -> bool {
    &&& distinct_keys(model.fields)
    &&& forall|i: int| 0 <= i < model.fields.len() ==> valid_field(#[trigger] model.fields[i])
    &&& valid_directives(model.directives)
}

/// No two enums and no two models have the same name, and each of them is well formed.
pub open spec fn valid_schema(schema: SchemaView) -> bool {
    let enums = enums_of(schema.tops);
    let models = models_of(schema.tops);
    &&& distinct_keys(enums)
    &&& forall|i: int| 0 <= i < enums.len() ==> valid_enum(#[trigger] enums[i])
    &&& distinct_keys(models)
    &&& forall|i: int| 0 <= i < models.len() ==> valid_model(#[trigger] models[i])
}

} // verus!
