//! What the update steps of a diff hold: every update changes something, and none renames.

use crate::ast::{EnumView, FieldView, ModelView, SchemaView};
use crate::datamodel_differ::fields::without_default;
use crate::datamodel_differ::ordering::{
    all_at, lemma_created_directives_at, lemma_directive_steps_at,
};
use crate::datamodel_differ::top_level::{enums_of, models_of};
use crate::datamodel_differ::{
    created_enums_steps, created_field_steps, created_fields_steps, created_model_steps,
    created_models_steps, deleted_enums_steps, deleted_fields_steps, deleted_models_steps,
    diff_steps, enum_steps, model_steps, updated_enum_steps, updated_enums_steps,
    updated_field_steps, updated_fields_steps, updated_model_steps, updated_models_steps,
};
use crate::keyed::lemma_item_of_has_key;
use crate::names::{first_index, has_key, matched, unmatched, Keyed};
use crate::steps::{LocationView, StepView};
use vstd::prelude::*;

verus! {

/// An update sets at least one of its optional attributes.
pub open spec fn changes_something(step: StepView) -> bool {
    match step {
        StepView::UpdateEnum { new_name, created_values, deleted_values, .. } => new_name is Some
            || created_values.len() > 0 || deleted_values.len() > 0,
        StepView::UpdateField { new_name, tpe, arity, default, .. } => new_name is Some
            || tpe is Some || arity is Some || default is Some,
        StepView::UpdateModel { new_name, db_name, embedded, .. } => new_name is Some
            || db_name is Some || embedded is Some,
        _ => true,
    }
}

/// An update gives no new name.
pub open spec fn renames_nothing(step: StepView) -> bool {
    match step {
        StepView::UpdateEnum { new_name, .. } => new_name is None,
        StepView::UpdateField { new_name, .. } => new_name is None,
        StepView::UpdateModel { new_name, .. } => new_name is None,
        _ => true,
    }
}

pub open spec fn all_plain_changes(steps: Seq<StepView>) -> bool {
    forall|i: int|
        0 <= i < steps.len() ==> changes_something(#[trigger] steps[i]) && renames_nothing(
            steps[i],
        )
}

/// The two items of a matched pair have one name.
proof fn lemma_matched_same_key<T: Keyed>(items: Seq<T>, others: Seq<T>)
    ensures
        forall|j: int|
            0 <= j < matched(items, others).len() ==> (#[trigger] matched(items, others)[j]).1.key()
                == matched(items, others)[j].0.key(),
    decreases items.len(),
{
    if items.len() > 0 {
        lemma_matched_same_key(items.drop_last(), others);
        let key = items.last().key();
        let pairs = matched(items, others);
        let rest = matched(items.drop_last(), others);
        if has_key(others, key) {
            lemma_item_of_has_key(others, key);
            assert(others[first_index(others, key)].key() == key);
        }
        assert forall|j: int| 0 <= j < pairs.len() implies (#[trigger] pairs[j]).1.key()
            == pairs[j].0.key() by {
            if j < rest.len() {
                assert(pairs[j] == rest[j]);
            }
        }
    }
}

proof fn lemma_directive_steps_are_plain(steps: Seq<StepView>, location: LocationView)
    requires
        all_at(steps, location),
    ensures
        all_plain_changes(steps),
{
    assert forall|i: int| 0 <= i < steps.len() implies changes_something(#[trigger] steps[i])
        && renames_nothing(steps[i]) by {
        assert(crate::datamodel_differ::ordering::directive_location_of(steps[i]) == Some(
            location,
        ));
    }
}

proof fn lemma_created_enums_are_plain(enums: Seq<EnumView>)
    ensures
        all_plain_changes(created_enums_steps(enums)),
    decreases enums.len(),
{
    if enums.len() > 0 {
        lemma_created_enums_are_plain(enums.drop_last());
        let location = LocationView::Enum { enum_name: enums.last().name };
        lemma_created_directives_at(location, enums.last().directives);
        lemma_directive_steps_are_plain(
            crate::datamodel_differ::created_directives_steps(location, enums.last().directives),
            location,
        );
    }
}

proof fn lemma_deleted_enums_are_plain(enums: Seq<EnumView>)
    ensures
        all_plain_changes(deleted_enums_steps(enums)),
    decreases enums.len(),
{
    if enums.len() > 0 {
        lemma_deleted_enums_are_plain(enums.drop_last());
    }
}

proof fn lemma_updated_enums_are_plain(pairs: Seq<(EnumView, EnumView)>)
    requires
        forall|j: int| 0 <= j < pairs.len() ==> (#[trigger] pairs[j]).1.name == pairs[j].0.name,
    ensures
        all_plain_changes(updated_enums_steps(pairs)),
    decreases pairs.len(),
{
    if pairs.len() > 0 {
        assert forall|j: int| 0 <= j < pairs.drop_last().len() implies (
        #[trigger] pairs.drop_last()[j]).1.name == pairs.drop_last()[j].0.name by {
            assert(pairs.drop_last()[j] == pairs[j]);
        }
        lemma_updated_enums_are_plain(pairs.drop_last());
        let pair = pairs[pairs.len() - 1];
        assert(pair.1.name == pair.0.name);
        let location = LocationView::Enum { enum_name: pair.0.name };
        lemma_directive_steps_at(location, pair.0.directives, pair.1.directives);
        lemma_directive_steps_are_plain(
            crate::datamodel_differ::directive_steps(location, pair.0.directives, pair.1.directives),
            location,
        );
        assert(all_plain_changes(updated_enum_steps(pair)));
    }
}

proof fn lemma_created_fields_are_plain(model: Seq<char>, fields: Seq<FieldView>)
    ensures
        all_plain_changes(created_fields_steps(model, fields)),
    decreases fields.len(),
{
    if fields.len() > 0 {
        lemma_created_fields_are_plain(model, fields.drop_last());
        let location = LocationView::Field { model, field: fields.last().name };
        let plain = without_default(fields.last().directives);
        lemma_created_directives_at(location, plain);
        lemma_directive_steps_are_plain(
            crate::datamodel_differ::created_directives_steps(location, plain),
            location,
        );
        assert(all_plain_changes(created_field_steps(model, fields.last())));
    }
}

proof fn lemma_deleted_fields_are_plain(model: Seq<char>, fields: Seq<FieldView>)
    ensures
        all_plain_changes(deleted_fields_steps(model, fields)),
    decreases fields.len(),
{
    if fields.len() > 0 {
        lemma_deleted_fields_are_plain(model, fields.drop_last());
    }
}

proof fn lemma_updated_fields_are_plain(model: Seq<char>, pairs: Seq<(FieldView, FieldView)>)
    requires
        forall|j: int| 0 <= j < pairs.len() ==> (#[trigger] pairs[j]).1.name == pairs[j].0.name,
    ensures
        all_plain_changes(updated_fields_steps(model, pairs)),
    decreases pairs.len(),
{
    if pairs.len() > 0 {
        assert forall|j: int| 0 <= j < pairs.drop_last().len() implies (
        #[trigger] pairs.drop_last()[j]).1.name == pairs.drop_last()[j].0.name by {
            assert(pairs.drop_last()[j] == pairs[j]);
        }
        lemma_updated_fields_are_plain(model, pairs.drop_last());
        let pair = pairs[pairs.len() - 1];
        assert(pair.1.name == pair.0.name);
        let location = LocationView::Field { model, field: pair.0.name };
        let previous = without_default(pair.0.directives);
        let next = without_default(pair.1.directives);
        lemma_directive_steps_at(location, previous, next);
        lemma_directive_steps_are_plain(
            crate::datamodel_differ::directive_steps(location, previous, next),
            location,
        );
        assert(all_plain_changes(updated_field_steps(model, pair)));
    }
}

proof fn lemma_created_models_are_plain(models: Seq<ModelView>)
    ensures
        all_plain_changes(created_models_steps(models)),
    decreases models.len(),
{
    if models.len() > 0 {
        lemma_created_models_are_plain(models.drop_last());
        let created = models.last();
        let location = LocationView::Model { model: created.name };
        lemma_created_fields_are_plain(created.name, created.fields);
        lemma_created_directives_at(location, created.directives);
        lemma_directive_steps_are_plain(
            crate::datamodel_differ::created_directives_steps(location, created.directives),
            location,
        );
        assert(all_plain_changes(created_model_steps(created)));
    }
}

proof fn lemma_deleted_models_are_plain(models: Seq<ModelView>)
    ensures
        all_plain_changes(deleted_models_steps(models)),
    decreases models.len(),
{
    if models.len() > 0 {
        lemma_deleted_models_are_plain(models.drop_last());
    }
}

proof fn lemma_updated_models_are_plain(pairs: Seq<(ModelView, ModelView)>)
    ensures
        all_plain_changes(updated_models_steps(pairs)),
    decreases pairs.len(),
{
    if pairs.len() > 0 {
        lemma_updated_models_are_plain(pairs.drop_last());
        let pair = pairs.last();
        let location = LocationView::Model { model: pair.0.name };
        lemma_created_fields_are_plain(pair.0.name, unmatched(pair.1.fields, pair.0.fields));
        lemma_matched_same_key(pair.0.fields, pair.1.fields);
        lemma_updated_fields_are_plain(pair.0.name, matched(pair.0.fields, pair.1.fields));
        lemma_deleted_fields_are_plain(pair.0.name, unmatched(pair.0.fields, pair.1.fields));
        lemma_directive_steps_at(location, pair.0.directives, pair.1.directives);
        lemma_directive_steps_are_plain(
            crate::datamodel_differ::directive_steps(location, pair.0.directives, pair.1.directives),
            location,
        );
        assert(all_plain_changes(updated_model_steps(pair)));
    }
}

/// In the steps from one schema to another, every update sets at least one of its optional
/// attributes, and no update gives a new name: a renamed declaration is a deleted and a
/// created one.
pub proof fn lemma_updates_change_something_and_rename_nothing(
    previous: SchemaView,
    next: SchemaView,
)
    ensures
        all_plain_changes(diff_steps(previous, next)),
{
    let previous_enums = enums_of(previous.tops);
    let next_enums = enums_of(next.tops);
    let previous_models = models_of(previous.tops);
    let next_models = models_of(next.tops);
    lemma_created_enums_are_plain(unmatched(next_enums, previous_enums));
    lemma_deleted_enums_are_plain(unmatched(previous_enums, next_enums));
    lemma_matched_same_key(previous_enums, next_enums);
    lemma_updated_enums_are_plain(matched(previous_enums, next_enums));
    lemma_created_models_are_plain(unmatched(next_models, previous_models));
    lemma_deleted_models_are_plain(unmatched(previous_models, next_models));
    lemma_updated_models_are_plain(matched(previous_models, next_models));
    assert(all_plain_changes(enum_steps(previous_enums, next_enums)));
    assert(all_plain_changes(model_steps(previous_models, next_models)));
}

} // verus!
