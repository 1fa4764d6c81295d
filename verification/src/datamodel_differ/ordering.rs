//! The order of the steps of a diff: every step on an enum comes before every step on a model.

use crate::ast::{ArgumentView, DirectiveView, EnumView, FieldView, ModelView, SchemaView};
use crate::datamodel_differ::top_level::{enums_of, models_of};
use crate::datamodel_differ::{
    created_argument_steps, created_directive_steps, created_directives_steps,
    created_enums_steps, created_field_steps, created_fields_steps, created_model_steps,
    created_models_steps, deleted_argument_steps, deleted_directives_steps, deleted_enums_steps,
    deleted_fields_steps, deleted_models_steps, diff_steps, directive_steps, enum_steps,
    model_steps, updated_argument_steps, updated_directive_steps, updated_directives_steps,
    updated_enum_steps, updated_enums_steps, updated_field_steps, updated_fields_steps,
    updated_model_steps, updated_models_steps,
};
use crate::steps::{LocationView, LocatorView, StepView};
use vstd::prelude::*;

verus! {

/// The entity that a step on a directive or on one of its arguments is attached to.
pub open spec fn directive_location_of(step: StepView) -> Option<LocationView> {
    match step {
        StepView::CreateDirective { locator } => Some(locator.location),
        StepView::DeleteDirective { locator } => Some(locator.location),
        StepView::CreateDirectiveArgument { locator, .. } => Some(locator.location),
        StepView::UpdateDirectiveArgument { locator, .. } => Some(locator.location),
        StepView::DeleteDirectiveArgument { locator, .. } => Some(locator.location),
        _ => None,
    }
}

/// The step creates, updates or deletes an enum, or a directive on an enum.
pub open spec fn is_enum_level(step: StepView) -> bool {
    match step {
        StepView::CreateEnum { .. } => true,
        StepView::UpdateEnum { .. } => true,
        StepView::DeleteEnum { .. } => true,
        _ => directive_location_of(step) matches Some(LocationView::Enum { .. }),
    }
}

/// The step creates, updates or deletes a model or a field, or a directive on one of them.
pub open spec fn is_model_level(step: StepView) -> bool {
    match step {
        StepView::CreateModel { .. } => true,
        StepView::UpdateModel { .. } => true,
        StepView::DeleteModel { .. } => true,
        StepView::CreateField { .. } => true,
        StepView::UpdateField { .. } => true,
        StepView::DeleteField { .. } => true,
        _ => directive_location_of(step) matches Some(LocationView::Model { .. })
            || directive_location_of(step) matches Some(LocationView::Field { .. }),
    }
}

/// Every step is on a directive at `location`, or on an argument of such a directive.
pub open spec fn all_at(steps: Seq<StepView>, location: LocationView) -> bool {
    forall|i: int|
        0 <= i < steps.len() ==> directive_location_of(#[trigger] steps[i]) == Some(location)
}

pub open spec fn all_enum_level(steps: Seq<StepView>) -> bool {
    forall|i: int| 0 <= i < steps.len() ==> is_enum_level(#[trigger] steps[i])
}

pub open spec fn all_model_level(steps: Seq<StepView>) -> bool {
    forall|i: int| 0 <= i < steps.len() ==> is_model_level(#[trigger] steps[i])
}

/// No step on a model comes before a step on an enum.
pub open spec fn enums_before_models(steps: Seq<StepView>) -> bool {
    forall|i: int, j: int|
        0 <= i < j < steps.len() && is_enum_level(#[trigger] steps[j]) ==> is_enum_level(
            #[trigger] steps[i],
        )
}

proof fn lemma_created_arguments_at(locator: LocatorView, arguments: Seq<ArgumentView>)
    ensures
        all_at(created_argument_steps(locator, arguments), locator.location),
    decreases arguments.len(),
{
    if arguments.len() > 0 {
        lemma_created_arguments_at(locator, arguments.drop_last());
    }
}

proof fn lemma_updated_arguments_at(
    locator: LocatorView,
    pairs: Seq<(ArgumentView, ArgumentView)>,
)
    ensures
        all_at(updated_argument_steps(locator, pairs), locator.location),
    decreases pairs.len(),
{
    if pairs.len() > 0 {
        lemma_updated_arguments_at(locator, pairs.drop_last());
    }
}

proof fn lemma_deleted_arguments_at(locator: LocatorView, arguments: Seq<ArgumentView>)
    ensures
        all_at(deleted_argument_steps(locator, arguments), locator.location),
    decreases arguments.len(),
{
    if arguments.len() > 0 {
        lemma_deleted_arguments_at(locator, arguments.drop_last());
    }
}

proof fn lemma_created_directive_at(location: LocationView, directive: DirectiveView)
    ensures
        all_at(created_directive_steps(location, directive), location),
{
    lemma_created_arguments_at(LocatorView { location, name: directive.name }, directive.arguments);
}

pub proof fn lemma_created_directives_at(location: LocationView, directives: Seq<DirectiveView>)
    ensures
        all_at(created_directives_steps(location, directives), location),
    decreases directives.len(),
{
    if directives.len() > 0 {
        lemma_created_directives_at(location, directives.drop_last());
        lemma_created_directive_at(location, directives.last());
    }
}

proof fn lemma_deleted_directives_at(location: LocationView, directives: Seq<DirectiveView>)
    ensures
        all_at(deleted_directives_steps(location, directives), location),
    decreases directives.len(),
{
    if directives.len() > 0 {
        lemma_deleted_directives_at(location, directives.drop_last());
    }
}

proof fn lemma_updated_directive_at(
    location: LocationView,
    pair: (DirectiveView, DirectiveView),
)
    ensures
        all_at(updated_directive_steps(location, pair), location),
{
    let locator = LocatorView { location, name: pair.0.name };
    lemma_created_arguments_at(locator, crate::names::unmatched(pair.1.arguments, pair.0.arguments));
    lemma_updated_arguments_at(locator, crate::names::matched(pair.0.arguments, pair.1.arguments));
    lemma_deleted_arguments_at(locator, crate::names::unmatched(pair.0.arguments, pair.1.arguments));
}

proof fn lemma_updated_directives_at(
    location: LocationView,
    pairs: Seq<(DirectiveView, DirectiveView)>,
)
    ensures
        all_at(updated_directives_steps(location, pairs), location),
    decreases pairs.len(),
{
    if pairs.len() > 0 {
        lemma_updated_directives_at(location, pairs.drop_last());
        lemma_updated_directive_at(location, pairs.last());
    }
}

/// All steps on the directives of an entity are attached to that entity.
pub proof fn lemma_directive_steps_at(
    location: LocationView,
    previous: Seq<DirectiveView>,
    next: Seq<DirectiveView>,
)
    ensures
        all_at(directive_steps(location, previous, next), location),
{
    lemma_created_directives_at(location, crate::names::unmatched(next, previous));
    lemma_updated_directives_at(location, crate::names::matched(previous, next));
    lemma_deleted_directives_at(location, crate::names::unmatched(previous, next));
}

proof fn lemma_created_enums_level(enums: Seq<EnumView>)
    ensures
        all_enum_level(created_enums_steps(enums)),
    decreases enums.len(),
{
    if enums.len() > 0 {
        lemma_created_enums_level(enums.drop_last());
        lemma_created_directives_at(
            LocationView::Enum { enum_name: enums.last().name },
            enums.last().directives,
        );
    }
}

proof fn lemma_deleted_enums_level(enums: Seq<EnumView>)
    ensures
        all_enum_level(deleted_enums_steps(enums)),
    decreases enums.len(),
{
    if enums.len() > 0 {
        lemma_deleted_enums_level(enums.drop_last());
    }
}

proof fn lemma_updated_enums_level(pairs: Seq<(EnumView, EnumView)>)
    ensures
        all_enum_level(updated_enums_steps(pairs)),
    decreases pairs.len(),
{
    if pairs.len() > 0 {
        lemma_updated_enums_level(pairs.drop_last());
        let pair = pairs.last();
        lemma_directive_steps_at(
            LocationView::Enum { enum_name: pair.0.name },
            pair.0.directives,
            pair.1.directives,
        );
        assert(all_enum_level(updated_enum_steps(pair)));
    }
}

/// Every step on enums is enum-level.
proof fn lemma_enum_steps_level(previous: Seq<EnumView>, next: Seq<EnumView>)
    ensures
        all_enum_level(enum_steps(previous, next)),
{
    lemma_created_enums_level(crate::names::unmatched(next, previous));
    lemma_deleted_enums_level(crate::names::unmatched(previous, next));
    lemma_updated_enums_level(crate::names::matched(previous, next));
}

proof fn lemma_created_fields_level(model: Seq<char>, fields: Seq<FieldView>)
    ensures
        all_model_level(created_fields_steps(model, fields)),
    decreases fields.len(),
{
    if fields.len() > 0 {
        lemma_created_fields_level(model, fields.drop_last());
        lemma_created_directives_at(
            LocationView::Field { model, field: fields.last().name },
            crate::datamodel_differ::fields::without_default(fields.last().directives),
        );
        assert(all_model_level(created_field_steps(model, fields.last())));
    }
}

proof fn lemma_deleted_fields_level(model: Seq<char>, fields: Seq<FieldView>)
    ensures
        all_model_level(deleted_fields_steps(model, fields)),
    decreases fields.len(),
{
    if fields.len() > 0 {
        lemma_deleted_fields_level(model, fields.drop_last());
    }
}

proof fn lemma_updated_fields_level(model: Seq<char>, pairs: Seq<(FieldView, FieldView)>)
    ensures
        all_model_level(updated_fields_steps(model, pairs)),
    decreases pairs.len(),
{
    if pairs.len() > 0 {
        lemma_updated_fields_level(model, pairs.drop_last());
        let pair = pairs.last();
        lemma_directive_steps_at(
            LocationView::Field { model, field: pair.0.name },
            crate::datamodel_differ::fields::without_default(pair.0.directives),
            crate::datamodel_differ::fields::without_default(pair.1.directives),
        );
        assert(all_model_level(updated_field_steps(model, pair)));
    }
}

proof fn lemma_created_models_level(models: Seq<ModelView>)
    ensures
        all_model_level(created_models_steps(models)),
    decreases models.len(),
{
    if models.len() > 0 {
        lemma_created_models_level(models.drop_last());
        let created = models.last();
        lemma_created_fields_level(created.name, created.fields);
        lemma_created_directives_at(
            LocationView::Model { model: created.name },
            created.directives,
        );
        assert(all_model_level(created_model_steps(created)));
    }
}

proof fn lemma_deleted_models_level(models: Seq<ModelView>)
    ensures
        all_model_level(deleted_models_steps(models)),
    decreases models.len(),
{
    if models.len() > 0 {
        lemma_deleted_models_level(models.drop_last());
    }
}

proof fn lemma_updated_models_level(pairs: Seq<(ModelView, ModelView)>)
    ensures
        all_model_level(updated_models_steps(pairs)),
    decreases pairs.len(),
{
    if pairs.len() > 0 {
        lemma_updated_models_level(pairs.drop_last());
        let pair = pairs.last();
        lemma_created_fields_level(
            pair.0.name,
            crate::names::unmatched(pair.1.fields, pair.0.fields),
        );
        lemma_updated_fields_level(pair.0.name, crate::names::matched(pair.0.fields, pair.1.fields));
        lemma_deleted_fields_level(
            pair.0.name,
            crate::names::unmatched(pair.0.fields, pair.1.fields),
        );
        lemma_directive_steps_at(
            LocationView::Model { model: pair.0.name },
            pair.0.directives,
            pair.1.directives,
        );
        assert(all_model_level(updated_model_steps(pair)));
    }
}

/// Every step on models is model-level.
proof fn lemma_model_steps_level(previous: Seq<ModelView>, next: Seq<ModelView>)
    ensures
        all_model_level(model_steps(previous, next)),
{
    lemma_created_models_level(crate::names::unmatched(next, previous));
    lemma_deleted_models_level(crate::names::unmatched(previous, next));
    lemma_updated_models_level(crate::names::matched(previous, next));
}

/// In the steps from one schema to another, every enum-level step comes before every
/// model-level step.
pub proof fn lemma_enum_steps_precede_model_steps(previous: SchemaView, next: SchemaView)
    ensures
        enums_before_models(diff_steps(previous, next)),
        forall|i: int|
            0 <= i < diff_steps(previous, next).len() ==> is_enum_level(
                #[trigger] diff_steps(previous, next)[i],
            ) != is_model_level(diff_steps(previous, next)[i]),
{
    let on_enums = enum_steps(enums_of(previous.tops), enums_of(next.tops));
    let on_models = model_steps(models_of(previous.tops), models_of(next.tops));
    lemma_enum_steps_level(enums_of(previous.tops), enums_of(next.tops));
    lemma_model_steps_level(models_of(previous.tops), models_of(next.tops));
    let steps = diff_steps(previous, next);
    assert forall|i: int| 0 <= i < steps.len() implies (if i < on_enums.len() {
        is_enum_level(#[trigger] steps[i])
    } else {
        is_model_level(steps[i])
    }) by {
        if i < on_enums.len() {
            assert(steps[i] == on_enums[i]);
        } else {
            assert(steps[i] == on_models[i - on_enums.len()]);
        }
    }
}

} // verus!
