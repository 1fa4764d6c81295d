//! The differ of two declarative schemas: the ordered migration steps that lead from the
//! previous schema to the next one.
//!
//! Declarations are classified by name, exactly and case-sensitively: a name that only the next
//! schema has is created, one that only the previous schema has is deleted, and one that both
//! have is compared member by member. Renames are never inferred.

pub mod directives;
pub mod enums;
pub mod fields;
pub mod models;
pub mod ordering;
pub mod identity;
pub mod top_level;
pub mod updates;

use crate::ast::{
    Argument, ArgumentView, Directive, DirectiveView, Enum, EnumValue, EnumValueView, EnumView,
    Field, FieldView, Model, ModelView, SchemaAst, SchemaView,
};
use crate::datamodel_differ::directives::{
    directive_string_value, get_directive_string_value, DirectiveDiffer,
};
use crate::datamodel_differ::enums::EnumDiffer;
use crate::datamodel_differ::fields::{default_value_of, without_default, FieldDiffer};
use crate::datamodel_differ::models::ModelDiffer;
use crate::datamodel_differ::top_level::{enums_of, models_of, TopDiffer};
use crate::names::{borrow_all, lemma_take_all, lemma_take_step, matched, unmatched, views_of};
use crate::validity::valid_schema;
use crate::steps::{
    push_step, CreateDirective, CreateDirectiveArgument, CreateEnum, CreateField, CreateModel,
    DeleteDirective, DeleteDirectiveArgument, DeleteEnum, DeleteField, DeleteModel, Diffable,
    DirectiveLocation, DirectiveLocator, LocationView, LocatorView, MigrationExpression,
    MigrationStep, StepView, UpdateDirectiveArgument, UpdateEnum, UpdateField,
};
use vstd::prelude::*;
use vstd::string::StringExecFns;

verus! {

pub type Steps = Vec<MigrationStep>;

/// The updated value where it differs from the current one.
pub open spec fn changed_value<V>(current: V, updated: V) -> Option<V> {
    if current == updated {
        None
    } else {
        Some(updated)
    }
}

pub open spec fn created_argument_step(locator: LocatorView, argument: ArgumentView) -> StepView {
    StepView::CreateDirectiveArgument {
        locator,
        argument_name: argument.name,
        argument_value: argument.value.rendered,
    }
}

/// One step for each argument, in order.
pub open spec fn created_argument_steps(locator: LocatorView, arguments: Seq<ArgumentView>) -> Seq<
    StepView,
>
    decreases arguments.len(),
{
    if arguments.len() == 0 {
        Seq::empty()
    } else {
        created_argument_steps(locator, arguments.drop_last()).push(
            created_argument_step(locator, arguments.last()),
        )
    }
}

/// The step for an argument that both versions have: none where the rendered values agree.
pub open spec fn updated_argument_step(
    locator: LocatorView,
    pair: (ArgumentView, ArgumentView),
) -> Seq<StepView> {
    if pair.0.value.rendered == pair.1.value.rendered {
        Seq::empty()
    } else {
        seq![
            StepView::UpdateDirectiveArgument {
                locator,
                argument_name: pair.1.name,
                new_argument_value: pair.1.value.rendered,
            },
        ]
    }
}

pub open spec fn updated_argument_steps(
    locator: LocatorView,
    pairs: Seq<(ArgumentView, ArgumentView)>,
) -> Seq<StepView>
    decreases pairs.len(),
{
    if pairs.len() == 0 {
        Seq::empty()
    } else {
        updated_argument_steps(locator, pairs.drop_last()) + updated_argument_step(
            locator,
            pairs.last(),
        )
    }
}

pub open spec fn deleted_argument_step(locator: LocatorView, argument_name: Seq<char>) -> StepView {
    StepView::DeleteDirectiveArgument { locator, argument_name }
}

pub open spec fn deleted_argument_steps(locator: LocatorView, arguments: Seq<ArgumentView>) -> Seq<
    StepView,
>
    decreases arguments.len(),
{
    if arguments.len() == 0 {
        Seq::empty()
    } else {
        deleted_argument_steps(locator, arguments.drop_last()).push(
            deleted_argument_step(locator, arguments.last().name),
        )
    }
}

/// The directive's creation, then one step for each of its arguments.
pub open spec fn created_directive_steps(location: LocationView, directive: DirectiveView) -> Seq<
    StepView,
> {
    let locator = LocatorView { location, name: directive.name };
    seq![StepView::CreateDirective { locator }] + created_argument_steps(
        locator,
        directive.arguments,
    )
}

pub open spec fn created_directives_steps(
    location: LocationView,
    directives: Seq<DirectiveView>,
) -> Seq<StepView>
    decreases directives.len(),
{
    if directives.len() == 0 {
        Seq::empty()
    } else {
        created_directives_steps(location, directives.drop_last()) + created_directive_steps(
            location,
            directives.last(),
        )
    }
}

pub open spec fn deleted_directive_step(location: LocationView, directive: DirectiveView) -> StepView {
    StepView::DeleteDirective { locator: LocatorView { location, name: directive.name } }
}

pub open spec fn deleted_directives_steps(
    location: LocationView,
    directives: Seq<DirectiveView>,
) -> Seq<StepView>
    decreases directives.len(),
{
    if directives.len() == 0 {
        Seq::empty()
    } else {
        deleted_directives_steps(location, directives.drop_last()).push(
            deleted_directive_step(location, directives.last()),
        )
    }
}

/// The steps for a directive that both versions have: created arguments, then changed ones,
/// then deleted ones.
pub open spec fn updated_directive_steps(
    location: LocationView,
    pair: (DirectiveView, DirectiveView),
) -> Seq<StepView> {
    let locator = LocatorView { location, name: pair.0.name };
    created_argument_steps(locator, unmatched(pair.1.arguments, pair.0.arguments))
        + updated_argument_steps(locator, matched(pair.0.arguments, pair.1.arguments))
        + deleted_argument_steps(locator, unmatched(pair.0.arguments, pair.1.arguments))
}

pub open spec fn updated_directives_steps(
    location: LocationView,
    pairs: Seq<(DirectiveView, DirectiveView)>,
) -> Seq<StepView>
    decreases pairs.len(),
{
    if pairs.len() == 0 {
        Seq::empty()
    } else {
        updated_directives_steps(location, pairs.drop_last()) + updated_directive_steps(
            location,
            pairs.last(),
        )
    }
}

/// The steps for the directives of an entity that both versions have: created directives, then
/// those that both have, then deleted ones.
pub open spec fn directive_steps(
    location: LocationView,
    previous: Seq<DirectiveView>,
    next: Seq<DirectiveView>,
) -> Seq<StepView> {
    created_directives_steps(location, unmatched(next, previous)) + updated_directives_steps(
        location,
        matched(previous, next),
    ) + deleted_directives_steps(location, unmatched(previous, next))
}

pub open spec fn value_names(values: Seq<EnumValueView>) -> Seq<Seq<char>> {
    Seq::new(values.len(), |i: int| values[i].name)
}

/// The enum's creation with all its values, then its directives.
pub open spec fn created_enum_steps(created: EnumView) -> Seq<StepView> {
    seq![StepView::CreateEnum { name: created.name, values: value_names(created.values) }]
        + created_directives_steps(
        LocationView::Enum { enum_name: created.name },
        created.directives,
    )
}

pub open spec fn created_enums_steps(enums: Seq<EnumView>) -> Seq<StepView>
    decreases enums.len(),
{
    if enums.len() == 0 {
        Seq::empty()
    } else {
        created_enums_steps(enums.drop_last()) + created_enum_steps(enums.last())
    }
}

pub open spec fn deleted_enums_steps(enums: Seq<EnumView>) -> Seq<StepView>
    decreases enums.len(),
{
    if enums.len() == 0 {
        Seq::empty()
    } else {
        deleted_enums_steps(enums.drop_last()).push(
            StepView::DeleteEnum { name: enums.last().name },
        )
    }
}

/// The update of an enum that both versions have: none where no value was added or removed.
pub open spec fn enum_update_step(pair: (EnumView, EnumView)) -> Seq<StepView> {
    let new_name = changed_value(pair.0.name, pair.1.name);
    let created_values = value_names(unmatched(pair.1.values, pair.0.values));
    let deleted_values = value_names(unmatched(pair.0.values, pair.1.values));
    if new_name is Some || created_values.len() > 0 || deleted_values.len() > 0 {
        seq![
            StepView::UpdateEnum { name: pair.0.name, new_name, created_values, deleted_values },
        ]
    } else {
        Seq::empty()
    }
}

pub open spec fn updated_enum_steps(pair: (EnumView, EnumView)) -> Seq<StepView> {
    enum_update_step(pair) + directive_steps(
        LocationView::Enum { enum_name: pair.0.name },
        pair.0.directives,
        pair.1.directives,
    )
}

pub open spec fn updated_enums_steps(pairs: Seq<(EnumView, EnumView)>) -> Seq<StepView>
    decreases pairs.len(),
{
    if pairs.len() == 0 {
        Seq::empty()
    } else {
        updated_enums_steps(pairs.drop_last()) + updated_enum_steps(pairs.last())
    }
}

/// All steps on enums: created enums, then deleted ones, then those that both versions have.
pub open spec fn enum_steps(previous: Seq<EnumView>, next: Seq<EnumView>) -> Seq<StepView> {
    created_enums_steps(unmatched(next, previous)) + deleted_enums_steps(
        unmatched(previous, next),
    ) + updated_enums_steps(matched(previous, next))
}

/// The field's creation, carrying its default value, then its other directives.
pub open spec fn created_field_steps(model: Seq<char>, field: FieldView) -> Seq<StepView> {
    seq![
        StepView::CreateField {
            model,
            name: field.name,
            tpe: field.field_type,
            arity: field.arity,
            db_name: directive_string_value("map"@, field.directives),
            default: default_value_of(field.directives),
        },
    ] + created_directives_steps(
        LocationView::Field { model, field: field.name },
        without_default(field.directives),
    )
}

pub open spec fn created_fields_steps(model: Seq<char>, fields: Seq<FieldView>) -> Seq<StepView>
    decreases fields.len(),
{
    if fields.len() == 0 {
        Seq::empty()
    } else {
        created_fields_steps(model, fields.drop_last()) + created_field_steps(model, fields.last())
    }
}

pub open spec fn deleted_fields_steps(model: Seq<char>, fields: Seq<FieldView>) -> Seq<StepView>
    decreases fields.len(),
{
    if fields.len() == 0 {
        Seq::empty()
    } else {
        deleted_fields_steps(model, fields.drop_last()).push(
            StepView::DeleteField { model, name: fields.last().name },
        )
    }
}

/// The update of a field that both versions have: none where type, arity and default agree.
pub open spec fn field_update_step(model: Seq<char>, pair: (FieldView, FieldView)) -> Seq<StepView> {
    let new_name = changed_value(pair.0.name, pair.1.name);
    let tpe = changed_value(pair.0.field_type, pair.1.field_type);
    let arity = changed_value(pair.0.arity, pair.1.arity);
    let default = changed_value(
        default_value_of(pair.0.directives),
        default_value_of(pair.1.directives),
    );
    if new_name is Some || arity is Some || tpe is Some || default is Some {
        seq![StepView::UpdateField { model, name: pair.0.name, new_name, tpe, arity, default }]
    } else {
        Seq::empty()
    }
}

pub open spec fn updated_field_steps(model: Seq<char>, pair: (FieldView, FieldView)) -> Seq<
    StepView,
> {
    field_update_step(model, pair) + directive_steps(
        LocationView::Field { model, field: pair.0.name },
        without_default(pair.0.directives),
        without_default(pair.1.directives),
    )
}

pub open spec fn updated_fields_steps(
    model: Seq<char>,
    pairs: Seq<(FieldView, FieldView)>,
) -> Seq<StepView>
    decreases pairs.len(),
{
    if pairs.len() == 0 {
        Seq::empty()
    } else {
        updated_fields_steps(model, pairs.drop_last()) + updated_field_steps(model, pairs.last())
    }
}

/// The model's creation, then its fields, then its directives.
pub open spec fn created_model_steps(created: ModelView) -> Seq<StepView> {
    seq![
        StepView::CreateModel {
            name: created.name,
            db_name: directive_string_value("map"@, created.directives),
            embedded: false,
        },
    ] + created_fields_steps(created.name, created.fields) + created_directives_steps(
        LocationView::Model { model: created.name },
        created.directives,
    )
}

pub open spec fn created_models_steps(models: Seq<ModelView>) -> Seq<StepView>
    decreases models.len(),
{
    if models.len() == 0 {
        Seq::empty()
    } else {
        created_models_steps(models.drop_last()) + created_model_steps(models.last())
    }
}

pub open spec fn deleted_models_steps(models: Seq<ModelView>) -> Seq<StepView>
    decreases models.len(),
{
    if models.len() == 0 {
        Seq::empty()
    } else {
        deleted_models_steps(models.drop_last()).push(
            StepView::DeleteModel { name: models.last().name },
        )
    }
}

/// The steps for a model that both versions have: created fields, then fields that both have,
/// then deleted fields, then the model's directives.
pub open spec fn updated_model_steps(pair: (ModelView, ModelView)) -> Seq<StepView> {
    created_fields_steps(pair.0.name, unmatched(pair.1.fields, pair.0.fields))
        + updated_fields_steps(pair.0.name, matched(pair.0.fields, pair.1.fields))
        + deleted_fields_steps(pair.0.name, unmatched(pair.0.fields, pair.1.fields))
        + directive_steps(
        LocationView::Model { model: pair.0.name },
        pair.0.directives,
        pair.1.directives,
    )
}

pub open spec fn updated_models_steps(pairs: Seq<(ModelView, ModelView)>) -> Seq<StepView>
    decreases pairs.len(),
{
    if pairs.len() == 0 {
        Seq::empty()
    } else {
        updated_models_steps(pairs.drop_last()) + updated_model_steps(pairs.last())
    }
}

/// All steps on models: created models, then deleted ones, then those that both versions have.
pub open spec fn model_steps(previous: Seq<ModelView>, next: Seq<ModelView>) -> Seq<StepView> {
    created_models_steps(unmatched(next, previous)) + deleted_models_steps(
        unmatched(previous, next),
    ) + updated_models_steps(matched(previous, next))
}

/// The steps from `previous` to `next`: all steps on enums, then all steps on models.
pub open spec fn diff_steps(previous: SchemaView, next: SchemaView) -> Seq<StepView> {
    enum_steps(enums_of(previous.tops), enums_of(next.tops)) + model_steps(
        models_of(previous.tops),
        models_of(next.tops),
    )
}

/// Diffs two schemas: the migration steps from `previous` to `next`.
pub fn diff(previous: &SchemaAst, next: &SchemaAst) -> (steps: Vec<MigrationStep>)
    ensures
        steps.deep_view() == diff_steps(previous.deep_view(), next.deep_view()),
        ordering::enums_before_models(steps.deep_view()),
        updates::all_plain_changes(steps.deep_view()),
        valid_schema(previous.deep_view()) && next.deep_view() == previous.deep_view()
            ==> steps@.len() == 0,
{
    proof {
        ordering::lemma_enum_steps_precede_model_steps(previous.deep_view(), next.deep_view());
        updates::lemma_updates_change_something_and_rename_nothing(
            previous.deep_view(),
            next.deep_view(),
        );
        if valid_schema(previous.deep_view()) && next.deep_view() == previous.deep_view() {
            identity::lemma_diff_of_same_schema_is_empty(previous.deep_view());
        }
    }
    let mut steps: Vec<MigrationStep> = Vec::new();
    let differ = TopDiffer { previous, next };
    assert(steps.deep_view() =~= Seq::<StepView>::empty());
    push_enums(&mut steps, &differ);
    push_models(&mut steps, &differ);
    assert(steps.deep_view() =~= diff_steps(previous.deep_view(), next.deep_view()));
    steps
}

/// Appends all steps on enums: created enums, then deleted ones, then those that both schemas

/// have.

pub fn push_enums(steps: &mut Steps, differ: &TopDiffer<'_>)
    ensures
        final(steps).deep_view() == old(steps).deep_view() + enum_steps(
            differ.previous_enums(),
            differ.next_enums(),
        ),
{
    push_created_enums(steps, &differ.created_enums());
    push_deleted_enums(steps, &differ.deleted_enums());
    push_updated_enums(steps, &differ.enum_pairs());
    assert(steps.deep_view() =~= old(steps).deep_view() + enum_steps(
        differ.previous_enums(),
        differ.next_enums(),
    ));
}

/// The names of a list of enum values.
pub fn value_names_of(values: &Vec<&EnumValue>) -> (names: Vec<String>)
    ensures
        names.deep_view() == value_names(views_of(values@)),
{
    let mut names: Vec<String> = Vec::new();
    let mut i: usize = 0;
    while i < values.len()
        invariant
            i <= values.len(),
            names@.len() == i,
            forall|j: int| 0 <= j < i ==> names@[j]@ == values@[j].name@,
        decreases values.len() - i,
    {
        names.push(values[i].name.clone());
        i = i + 1;
    }
    assert(names.deep_view() =~= value_names(views_of(values@)));
    names
}

/// Appends, for each created enum, its creation and the creation of its directives.

pub fn push_created_enums(steps: &mut Steps, enums: &Vec<&Enum>)
    ensures
        final(steps).deep_view() == old(steps).deep_view() + created_enums_steps(
            views_of(enums@),
        ),
{
    let ghost start = steps.deep_view();
    let ghost views = views_of(enums@);
    let mut i: usize = 0;
    while i < enums.len()
        invariant
            i <= enums.len(),
            views == views_of(enums@),
            steps.deep_view() == start + created_enums_steps(views.take(i as int)),
        decreases enums.len() - i,
    {
        let created = enums[i];
        proof {
            lemma_take_step(views, i as int);
        }
        let create_enum_step = CreateEnum {
            name: created.name.name.clone(),
            values: value_names_of(&borrow_all(&created.values)),
        };
        push_step(steps, MigrationStep::CreateEnum(create_enum_step));
        let location = DirectiveLocation::Enum { enum_name: created.name.name.clone() };
        push_created_directives(steps, &location, &borrow_all(&created.directives));
        assert(steps.deep_view() =~= start + created_enums_steps(views.take(i + 1)));
        i = i + 1;
    }
    proof {
        lemma_take_all(views);
    }
}

/// Appends one deletion for each enum.

pub fn push_deleted_enums(steps: &mut Steps, enums: &Vec<&Enum>)
    ensures
        final(steps).deep_view() == old(steps).deep_view() + deleted_enums_steps(
            views_of(enums@),
        ),
{
    let ghost start = steps.deep_view();
    let ghost views = views_of(enums@);
    let mut i: usize = 0;
    while i < enums.len()
        invariant
            i <= enums.len(),
            views == views_of(enums@),
            steps.deep_view() == start + deleted_enums_steps(views.take(i as int)),
        decreases enums.len() - i,
    {
        proof {
            lemma_take_step(views, i as int);
        }
        let delete = DeleteEnum { name: enums[i].name.name.clone() };
        push_step(steps, MigrationStep::DeleteEnum(delete));
        assert(steps.deep_view() =~= start + deleted_enums_steps(views.take(i + 1)));
        i = i + 1;
    }
    proof {
        lemma_take_all(views);
    }
}

/// Appends, for each enum that both schemas have, its update, where its values changed, and

/// the steps on its directives.

pub fn push_updated_enums(steps: &mut Steps, enums: &Vec<EnumDiffer<'_>>)
    ensures
        final(steps).deep_view() == old(steps).deep_view() + updated_enums_steps(
            enums.deep_view(),
        ),
{
    let ghost start = steps.deep_view();
    let ghost views = enums.deep_view();
    let mut i: usize = 0;
    while i < enums.len()
        invariant
            i <= enums.len(),
            views == enums.deep_view(),
            steps.deep_view() == start + updated_enums_steps(views.take(i as int)),
        decreases enums.len() - i,
    {
        let updated_enum = &enums[i];
        proof {
            lemma_take_step(views, i as int);
        }
        let created_values = value_names_of(&enums::created_values(updated_enum));
        let deleted_values = value_names_of(&enums::deleted_values(updated_enum));
        let update_enum_step = UpdateEnum {
            name: updated_enum.previous.name.name.clone(),
            new_name: diff_value(&updated_enum.previous.name.name, &updated_enum.next.name.name),
            created_values,
            deleted_values,
        };
        if update_enum_step.is_any_option_set() {
            push_step(steps, MigrationStep::UpdateEnum(update_enum_step));
        }
        assert(steps.deep_view() =~= start + updated_enums_steps(views.take(i as int))
            + enum_update_step(views[i as int]));
        let location = DirectiveLocation::Enum {
            enum_name: updated_enum.previous.name.name.clone(),
        };
        push_created_directives(steps, &location, &enums::created_directives(updated_enum));
        push_updated_directives(steps, &location, &enums::directive_pairs(updated_enum));
        push_deleted_directives(steps, &location, &enums::deleted_directives(updated_enum));
        assert(steps.deep_view() =~= start + updated_enums_steps(views.take(i + 1)));
        i = i + 1;
    }
    proof {
        lemma_take_all(views);
    }
}

/// Appends all steps on models: created models, then deleted ones, then those that both

/// schemas have.

pub fn push_models(steps: &mut Steps, differ: &TopDiffer<'_>)
    ensures
        final(steps).deep_view() == old(steps).deep_view() + model_steps(
            differ.previous_models(),
            differ.next_models(),
        ),
{
    push_created_models(steps, &differ.created_models());
    push_deleted_models(steps, &differ.deleted_models());
    push_updated_models(steps, &differ.model_pairs());
    assert(steps.deep_view() =~= old(steps).deep_view() + model_steps(
        differ.previous_models(),
        differ.next_models(),
    ));
}

/// An owned copy of an optional borrowed string.
pub fn owned_string(text: Option<&str>) -> (owned: Option<String>)
    ensures
        owned.deep_view() == text.deep_view(),
{
    match text {
        Some(text) => Some(String::from_str(text)),
        None => None,
    }
}

/// Appends, for each created model, its creation, the creation of its fields and the creation

/// of its directives.

pub fn push_created_models(steps: &mut Steps, models: &Vec<&Model>)
    ensures
        final(steps).deep_view() == old(steps).deep_view() + created_models_steps(
            views_of(models@),
        ),
{
    let ghost start = steps.deep_view();
    let ghost views = views_of(models@);
    let mut i: usize = 0;
    while i < models.len()
        invariant
            i <= models.len(),
            views == views_of(models@),
            steps.deep_view() == start + created_models_steps(views.take(i as int)),
        decreases models.len() - i,
    {
        let created_model = models[i];
        proof {
            lemma_take_step(views, i as int);
        }
        let directive_location = DirectiveLocation::Model {
            model: created_model.name.name.clone(),
        };
        let db_name = owned_string(get_directive_string_value("map", &created_model.directives));
        let create_model_step = CreateModel {
            name: created_model.name.name.clone(),
            embedded: false,
            db_name,
        };
        push_step(steps, MigrationStep::CreateModel(create_model_step));
        push_created_fields(
            steps,
            &created_model.name.name,
            &borrow_all(&created_model.fields),
        );
        push_created_directives(
            steps,
            &directive_location,
            &borrow_all(&created_model.directives),
        );
        assert(steps.deep_view() =~= start + created_models_steps(views.take(i + 1)));
        i = i + 1;
    }
    proof {
        lemma_take_all(views);
    }
}

/// Appends one deletion for each model.

pub fn push_deleted_models(steps: &mut Steps, models: &Vec<&Model>)
    ensures
        final(steps).deep_view() == old(steps).deep_view() + deleted_models_steps(
            views_of(models@),
        ),
{
    let ghost start = steps.deep_view();
    let ghost views = views_of(models@);
    let mut i: usize = 0;
    while i < models.len()
        invariant
            i <= models.len(),
            views == views_of(models@),
            steps.deep_view() == start + deleted_models_steps(views.take(i as int)),
        decreases models.len() - i,
    {
        proof {
            lemma_take_step(views, i as int);
        }
        let delete = DeleteModel { name: models[i].name.name.clone() };
        push_step(steps, MigrationStep::DeleteModel(delete));
        assert(steps.deep_view() =~= start + deleted_models_steps(views.take(i + 1)));
        i = i + 1;
    }
    proof {
        lemma_take_all(views);
    }
}

/// Appends, for each model that both schemas have, the steps on its fields and on its

/// directives.

pub fn push_updated_models(steps: &mut Steps, models: &Vec<ModelDiffer<'_>>)
    ensures
        final(steps).deep_view() == old(steps).deep_view() + updated_models_steps(
            models.deep_view(),
        ),
{
    let ghost start = steps.deep_view();
    let ghost views = models.deep_view();
    let mut i: usize = 0;
    while i < models.len()
        invariant
            i <= models.len(),
            views == models.deep_view(),
            steps.deep_view() == start + updated_models_steps(views.take(i as int)),
        decreases models.len() - i,
    {
        let model = &models[i];
        proof {
            lemma_take_step(views, i as int);
        }
        let model_name = &model.previous.name.name;
        let ghost before = steps.deep_view();
        let ghost pair = views[i as int];
        push_created_fields(steps, model_name, &models::created_fields(model));
        push_updated_fields(steps, model_name, &models::field_pairs(model));
        push_deleted_fields(steps, model_name, &models::deleted_fields(model));
        let ghost after_fields = steps.deep_view();
        let directive_location = DirectiveLocation::Model { model: model_name.clone() };
        push_created_directives(steps, &directive_location, &models::created_directives(model));
        push_updated_directives(steps, &directive_location, &models::directive_pairs(model));
        push_deleted_directives(steps, &directive_location, &models::deleted_directives(model));
        proof {
            let location = LocationView::Model { model: pair.0.name };
            assert(steps.deep_view() =~= after_fields + directive_steps(
                location,
                pair.0.directives,
                pair.1.directives,
            ));
            assert(steps.deep_view() =~= before + updated_model_steps(pair));
            assert(updated_models_steps(views.take(i + 1)) == updated_models_steps(
                views.take(i as int),
            ) + updated_model_steps(pair));
        }
        assert(steps.deep_view() =~= start + updated_models_steps(views.take(i + 1)));
        i = i + 1;
    }
    proof {
        lemma_take_all(views);
    }
}

/// Appends, for each created field, its creation with its default value, and the creation of

/// its directives other than `default`.

pub fn push_created_fields(steps: &mut Steps, model_name: &String, fields: &Vec<&Field>)
    ensures
        final(steps).deep_view() == old(steps).deep_view() + created_fields_steps(
            model_name@,
            views_of(fields@),
        ),
{
    let ghost start = steps.deep_view();
    let ghost views = views_of(fields@);
    let mut i: usize = 0;
    while i < fields.len()
        invariant
            i <= fields.len(),
            views == views_of(fields@),
            steps.deep_view() == start + created_fields_steps(model_name@, views.take(i as int)),
        decreases fields.len() - i,
    {
        let field = fields[i];
        proof {
            lemma_take_step(views, i as int);
        }
        let default = fields::default_value(field);
        let create_field_step = CreateField {
            arity: field.arity,
            name: field.name.name.clone(),
            tpe: field.field_type.name.clone(),
            model: model_name.clone(),
            db_name: owned_string(get_directive_string_value("map", &field.directives)),
            default,
        };
        push_step(steps, MigrationStep::CreateField(create_field_step));
        let directive_location = DirectiveLocation::Field {
            model: model_name.clone(),
            field: field.name.name.clone(),
        };
        push_created_directives(steps, &directive_location, &fields::plain_directives(field));
        assert(steps.deep_view() =~= start + created_fields_steps(model_name@, views.take(i + 1)));
        i = i + 1;
    }
    proof {
        lemma_take_all(views);
    }
}

/// Appends one deletion for each field.

pub fn push_deleted_fields(steps: &mut Steps, model_name: &String, fields: &Vec<&Field>)
    ensures
        final(steps).deep_view() == old(steps).deep_view() + deleted_fields_steps(
            model_name@,
            views_of(fields@),
        ),
{
    let ghost start = steps.deep_view();
    let ghost views = views_of(fields@);
    let mut i: usize = 0;
    while i < fields.len()
        invariant
            i <= fields.len(),
            views == views_of(fields@),
            steps.deep_view() == start + deleted_fields_steps(model_name@, views.take(i as int)),
        decreases fields.len() - i,
    {
        proof {
            lemma_take_step(views, i as int);
        }
        let delete = DeleteField { model: model_name.clone(), name: fields[i].name.name.clone() };
        push_step(steps, MigrationStep::DeleteField(delete));
        assert(steps.deep_view() =~= start + deleted_fields_steps(model_name@, views.take(i + 1)));
        i = i + 1;
    }
    proof {
        lemma_take_all(views);
    }
}

/// Appends, for each field that both versions of a model have, its update, where its type, its

/// arity or its default value changed, and the steps on its directives other than `default`.

pub fn push_updated_fields(steps: &mut Steps, model_name: &String, fields: &Vec<FieldDiffer<'_>>)
    ensures
        final(steps).deep_view() == old(steps).deep_view() + updated_fields_steps(
            model_name@,
            fields.deep_view(),
        ),
{
    let ghost start = steps.deep_view();
    let ghost views = fields.deep_view();
    let mut i: usize = 0;
    while i < fields.len()
        invariant
            i <= fields.len(),
            views == fields.deep_view(),
            steps.deep_view() == start + updated_fields_steps(model_name@, views.take(i as int)),
        decreases fields.len() - i,
    {
        let field = &fields[i];
        proof {
            lemma_take_step(views, i as int);
        }
        let previous_default_directive = fields::default_value(field.previous);
        let next_default_directive = fields::default_value(field.next);
        let update_field_step = UpdateField {
            arity: diff_value(&field.previous.arity, &field.next.arity),
            new_name: diff_value(&field.previous.name.name, &field.next.name.name),
            model: model_name.clone(),
            name: field.previous.name.name.clone(),
            tpe: diff_value(&field.previous.field_type.name, &field.next.field_type.name),
            default: diff_value(&previous_default_directive, &next_default_directive),
        };
        if update_field_step.is_any_option_set() {
            push_step(steps, MigrationStep::UpdateField(update_field_step));
        }
        assert(steps.deep_view() =~= start + updated_fields_steps(model_name@, views.take(i as int))
            + field_update_step(model_name@, views[i as int]));
        let directive_location = DirectiveLocation::Field {
            model: model_name.clone(),
            field: field.previous.name.name.clone(),
        };
        push_created_directives(steps, &directive_location, &fields::created_directives(field));
        push_updated_directives(steps, &directive_location, &fields::directive_pairs(field));
        push_deleted_directives(steps, &directive_location, &fields::deleted_directives(field));
        assert(steps.deep_view() =~= start + updated_fields_steps(model_name@, views.take(i + 1)));
        i = i + 1;
    }
    proof {
        lemma_take_all(views);
    }
}

/// Appends the creation of each directive with its arguments.

pub fn push_created_directives(
    steps: &mut Steps,
    location: &DirectiveLocation,
    directives: &Vec<&Directive>,
)
    ensures
        final(steps).deep_view() == old(steps).deep_view() + created_directives_steps(
            location.deep_view(),
            views_of(directives@),
        ),
{
    let ghost start = steps.deep_view();
    let ghost views = views_of(directives@);
    let mut i: usize = 0;
    while i < directives.len()
        invariant
            i <= directives.len(),
            views == views_of(directives@),
            steps.deep_view() == start + created_directives_steps(
                location.deep_view(),
                views.take(i as int),
            ),
        decreases directives.len() - i,
    {
        proof {
            lemma_take_step(views, i as int);
        }
        push_created_directive(steps, location.duplicate(), directives[i]);
        assert(steps.deep_view() =~= start + created_directives_steps(
            location.deep_view(),
            views.take(i + 1),
        ));
        i = i + 1;
    }
    proof {
        lemma_take_all(views);
    }
}

/// Appends the creation of a directive and of each of its arguments.

pub fn push_created_directive(
    steps: &mut Steps,
    location: DirectiveLocation,
    directive: &Directive,
)
    ensures
        final(steps).deep_view() == old(steps).deep_view() + created_directive_steps(
            location.deep_view(),
            directive.deep_view(),
        ),
{
    let ghost start = steps.deep_view();
    let locator = DirectiveLocator { location, name: directive.name.name.clone() };
    let step = CreateDirective { locator: locator.duplicate() };
    push_step(steps, MigrationStep::CreateDirective(step));
    let ghost created = steps.deep_view();
    let ghost views = directive.deep_view().arguments;
    let mut i: usize = 0;
    while i < directive.arguments.len()
        invariant
            i <= directive.arguments.len(),
            views == directive.deep_view().arguments,
            steps.deep_view() == created + created_argument_steps(
                locator.deep_view(),
                views.take(i as int),
            ),
        decreases directive.arguments.len() - i,
    {
        proof {
            lemma_take_step(views, i as int);
        }
        push_created_directive_argument(steps, &locator, &directive.arguments[i]);
        assert(steps.deep_view() =~= created + created_argument_steps(
            locator.deep_view(),
            views.take(i + 1),
        ));
        i = i + 1;
    }
    proof {
        lemma_take_all(views);
        assert(steps.deep_view() =~= start + created_directive_steps(
            location.deep_view(),
            directive.deep_view(),
        ));
    }
}

/// Appends one deletion for each directive.

pub fn push_deleted_directives(
    steps: &mut Steps,
    location: &DirectiveLocation,
    directives: &Vec<&Directive>,
)
    ensures
        final(steps).deep_view() == old(steps).deep_view() + deleted_directives_steps(
            location.deep_view(),
            views_of(directives@),
        ),
{
    let ghost start = steps.deep_view();
    let ghost views = views_of(directives@);
    let mut i: usize = 0;
    while i < directives.len()
        invariant
            i <= directives.len(),
            views == views_of(directives@),
            steps.deep_view() == start + deleted_directives_steps(
                location.deep_view(),
                views.take(i as int),
            ),
        decreases directives.len() - i,
    {
        proof {
            lemma_take_step(views, i as int);
        }
        push_deleted_directive(steps, location.duplicate(), directives[i]);
        assert(steps.deep_view() =~= start + deleted_directives_steps(
            location.deep_view(),
            views.take(i + 1),
        ));
        i = i + 1;
    }
    proof {
        lemma_take_all(views);
    }
}

/// Appends the deletion of a directive.

pub fn push_deleted_directive(
    steps: &mut Steps,
    location: DirectiveLocation,
    directive: &Directive,
)
    ensures
        final(steps).deep_view() == old(steps).deep_view().push(
            deleted_directive_step(location.deep_view(), directive.deep_view()),
        ),
{
    let step = DeleteDirective {
        locator: DirectiveLocator { location, name: directive.name.name.clone() },
    };
    push_step(steps, MigrationStep::DeleteDirective(step));
}

/// Appends the steps on the arguments of each directive that both versions have.

pub fn push_updated_directives(
    steps: &mut Steps,
    location: &DirectiveLocation,
    directives: &Vec<DirectiveDiffer<'_>>,
)
    ensures
        final(steps).deep_view() == old(steps).deep_view() + updated_directives_steps(
            location.deep_view(),
            directives.deep_view(),
        ),
{
    let ghost start = steps.deep_view();
    let ghost views = directives.deep_view();
    let mut i: usize = 0;
    while i < directives.len()
        invariant
            i <= directives.len(),
            views == directives.deep_view(),
            steps.deep_view() == start + updated_directives_steps(
                location.deep_view(),
                views.take(i as int),
            ),
        decreases directives.len() - i,
    {
        proof {
            lemma_take_step(views, i as int);
        }
        push_updated_directive(steps, location.duplicate(), &directives[i]);
        assert(steps.deep_view() =~= start + updated_directives_steps(
            location.deep_view(),
            views.take(i + 1),
        ));
        i = i + 1;
    }
    proof {
        lemma_take_all(views);
    }
}

/// Appends the steps on the arguments of a directive that both versions have: created

/// arguments, then changed ones, then deleted ones.

pub fn push_updated_directive(
    steps: &mut Steps,
    location: DirectiveLocation,
    directive: &DirectiveDiffer<'_>,
)
    ensures
        final(steps).deep_view() == old(steps).deep_view() + updated_directive_steps(
            location.deep_view(),
            directive.deep_view(),
        ),
{
    let ghost start = steps.deep_view();
    let locator = DirectiveLocator {
        name: directive.previous.name.name.clone(),
        location: location.duplicate(),
    };
    let ghost at = locator.deep_view();

    let created = directives::created_arguments(directive);
    let ghost created_views = views_of(created@);
    let mut i: usize = 0;
    while i < created.len()
        invariant
            i <= created.len(),
            at == locator.deep_view(),
            created_views == views_of(created@),
            steps.deep_view() == start + created_argument_steps(at, created_views.take(i as int)),
        decreases created.len() - i,
    {
        proof {
            lemma_take_step(created_views, i as int);
        }
        push_created_directive_argument(steps, &locator, created[i]);
        assert(steps.deep_view() =~= start + created_argument_steps(
            at,
            created_views.take(i + 1),
        ));
        i = i + 1;
    }
    proof {
        lemma_take_all(created_views);
    }
    let ghost after_created = steps.deep_view();

    let pairs = directives::argument_pairs(directive);
    let ghost pair_views = pairs.deep_view();
    let mut j: usize = 0;
    while j < pairs.len()
        invariant
            j <= pairs.len(),
            at == locator.deep_view(),
            pair_views == pairs.deep_view(),
            steps.deep_view() == after_created + updated_argument_steps(
                at,
                pair_views.take(j as int),
            ),
        decreases pairs.len() - j,
    {
        proof {
            lemma_take_step(pair_views, j as int);
        }
        push_updated_directive_argument(steps, &locator, pairs[j].previous, pairs[j].next);
        assert(steps.deep_view() =~= after_created + updated_argument_steps(
            at,
            pair_views.take(j + 1),
        ));
        j = j + 1;
    }
    proof {
        lemma_take_all(pair_views);
    }
    let ghost after_updated = steps.deep_view();

    let deleted = directives::deleted_arguments(directive);
    let ghost deleted_views = views_of(deleted@);
    let mut k: usize = 0;
    while k < deleted.len()
        invariant
            k <= deleted.len(),
            at == locator.deep_view(),
            deleted_views == views_of(deleted@),
            steps.deep_view() == after_updated + deleted_argument_steps(
                at,
                deleted_views.take(k as int),
            ),
        decreases deleted.len() - k,
    {
        proof {
            lemma_take_step(deleted_views, k as int);
        }
        push_deleted_directive_argument(steps, &locator, deleted[k].name.name.as_str());
        assert(steps.deep_view() =~= after_updated + deleted_argument_steps(
            at,
            deleted_views.take(k + 1),
        ));
        k = k + 1;
    }
    proof {
        lemma_take_all(deleted_views);
        assert(steps.deep_view() =~= start + updated_directive_steps(
            location.deep_view(),
            directive.deep_view(),
        ));
    }
}

/// Appends the creation of an argument with its rendered value.

pub fn push_created_directive_argument(
    steps: &mut Steps,
    directive_location: &DirectiveLocator,
    argument: &Argument,
)
    ensures
        final(steps).deep_view() == old(steps).deep_view().push(
            created_argument_step(directive_location.deep_view(), argument.deep_view()),
        ),
{
    let create_argument_step = CreateDirectiveArgument {
        argument_name: argument.name.name.clone(),
        argument_value: MigrationExpression::from_ast_expression(&argument.value),
        directive_location: directive_location.duplicate(),
    };
    push_step(steps, MigrationStep::CreateDirectiveArgument(create_argument_step));
}

/// Appends the update of an argument that both versions have. Where the two values render
/// the same, nothing is appended.
pub fn push_updated_directive_argument(
    steps: &mut Steps,
    directive_location: &DirectiveLocator,
    previous_argument: &Argument,
    next_argument: &Argument,
)
    ensures
        final(steps).deep_view() == old(steps).deep_view() + updated_argument_step(
            directive_location.deep_view(),
            (previous_argument.deep_view(), next_argument.deep_view()),
        ),
        previous_argument.value.rendered() == next_argument.value.rendered()
            ==> final(steps).deep_view() == old(steps).deep_view(),
{
    let previous_value = MigrationExpression::from_ast_expression(&previous_argument.value);
    let next_value = MigrationExpression::from_ast_expression(&next_argument.value);
    if previous_value.same(&next_value) {
        assert(steps.deep_view() =~= old(steps).deep_view() + Seq::<StepView>::empty());
        return ;
    }
    let update_argument_step = UpdateDirectiveArgument {
        argument_name: next_argument.name.name.clone(),
        new_argument_value: next_value,
        directive_location: directive_location.duplicate(),
    };
    push_step(steps, MigrationStep::UpdateDirectiveArgument(update_argument_step));
    assert(steps.deep_view() =~= old(steps).deep_view() + updated_argument_step(
        directive_location.deep_view(),
        (previous_argument.deep_view(), next_argument.deep_view()),
    ));
}

/// Appends the deletion of an argument.

pub fn push_deleted_directive_argument(
    steps: &mut Steps,
    directive_location: &DirectiveLocator,
    argument_name: &str,
)
    ensures
        final(steps).deep_view() == old(steps).deep_view().push(
            deleted_argument_step(directive_location.deep_view(), argument_name@),
        ),
{
    let delete_argument_step = DeleteDirectiveArgument {
        argument_name: String::from_str(argument_name),
        directive_location: directive_location.duplicate(),
    };
    push_step(steps, MigrationStep::DeleteDirectiveArgument(delete_argument_step));
}

/// The updated value where it differs from the current one, `None` where both are the same.
pub fn diff_value<T: Diffable>(current: &T, updated: &T) -> (changed: Option<T>)
    ensures
        changed.deep_view() == changed_value(current.deep_view(), updated.deep_view()),
{
    if current.same(updated) {
        None
    } else {
        Some(updated.duplicate())
    }
}

} // verus!
