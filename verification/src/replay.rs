//! Replaying migration steps on a schema by names.

pub mod directives;
pub mod enums;
pub mod models;
pub mod round_trip;

use crate::datamodel_differ::ordering::{all_at, directive_location_of};
use crate::keyed::{Arguments, Directives, KeyedEnum, KeyedField, KeyedModel, KeyedSchema};
use crate::steps::{LocationView, LocatorView, StepView};
use vstd::prelude::*;

verus! {

/// The directive whose argument a step creates, updates or deletes.
pub open spec fn argument_locator_of(step: StepView) -> Option<LocatorView> {
    match step {
        StepView::CreateDirectiveArgument { locator, .. } => Some(locator),
        StepView::UpdateDirectiveArgument { locator, .. } => Some(locator),
        StepView::DeleteDirectiveArgument { locator, .. } => Some(locator),
        _ => None,
    }
}

/// The arguments of a directive after a step on one of them.
pub open spec fn apply_argument_step(arguments: Arguments, step: StepView) -> Arguments {
    match step {
        StepView::CreateDirectiveArgument { argument_name, argument_value, .. } => arguments.insert(
            argument_name,
            argument_value,
        ),
        StepView::UpdateDirectiveArgument {
            argument_name,
            new_argument_value,
            ..
        } => arguments.insert(argument_name, new_argument_value),
        StepView::DeleteDirectiveArgument { argument_name, .. } => arguments.remove(argument_name),
        _ => arguments,
    }
}

pub open spec fn apply_argument_steps(arguments: Arguments, steps: Seq<StepView>) -> Arguments
    decreases steps.len(),
{
    if steps.len() == 0 {
        arguments
    } else {
        apply_argument_step(apply_argument_steps(arguments, steps.drop_last()), steps.last())
    }
}

/// The directives of an entity after a step on one of them. A new directive has no
/// argument; a step on an argument of a directive that is not there changes nothing.
pub open spec fn apply_directive_step(directives: Directives, step: StepView) -> Directives {
    match step {
        StepView::CreateDirective { locator } => directives.insert(locator.name, Map::empty()),
        StepView::DeleteDirective { locator } => directives.remove(locator.name),
        _ => match argument_locator_of(step) {
            Some(locator) => if directives.contains_key(locator.name) {
                directives.insert(
                    locator.name,
                    apply_argument_step(directives[locator.name], step),
                )
            } else {
                directives
            },
            None => directives,
        },
    }
}

pub open spec fn apply_directive_steps(directives: Directives, steps: Seq<StepView>) -> Directives
    decreases steps.len(),
{
    if steps.len() == 0 {
        directives
    } else {
        apply_directive_step(apply_directive_steps(directives, steps.drop_last()), steps.last())
    }
}

/// Whether the schema has the entity that a directive is attached to.
pub open spec fn has_location(schema: KeyedSchema, location: LocationView) -> bool {
    match location {
        LocationView::Enum { enum_name } => schema.enums.contains_key(enum_name),
        LocationView::Model { model } => schema.models.contains_key(model),
        LocationView::Field { model, field } => schema.models.contains_key(model)
            && schema.models[model].fields.contains_key(field),
    }
}

/// The directives of an entity.
pub open spec fn directives_at(schema: KeyedSchema, location: LocationView) -> Directives {
    match location {
        LocationView::Enum { enum_name } => schema.enums[enum_name].directives,
        LocationView::Model { model } => schema.models[model].directives,
        LocationView::Field { model, field } => schema.models[model].fields[field].directives,
    }
}

/// The schema with other directives on one entity, where it has that entity.
pub open spec fn with_directives_at(
    schema: KeyedSchema,
    location: LocationView,
    directives: Directives,
) -> KeyedSchema {
    if !has_location(schema, location) {
        schema
    } else {
        match location {
            LocationView::Enum { enum_name } => KeyedSchema {
                enums: schema.enums.insert(
                    enum_name,
                    KeyedEnum { directives, ..schema.enums[enum_name] },
                ),
                ..schema
            },
            LocationView::Model { model } => KeyedSchema {
                models: schema.models.insert(
                    model,
                    KeyedModel { directives, ..schema.models[model] },
                ),
                ..schema
            },
            LocationView::Field { model, field } => KeyedSchema {
                models: schema.models.insert(
                    model,
                    KeyedModel {
                        fields: schema.models[model].fields.insert(
                            field,
                            KeyedField { directives, ..schema.models[model].fields[field] },
                        ),
                        ..schema.models[model]
                    },
                ),
                ..schema
            },
        }
    }
}

pub open spec fn renamed(name: Seq<char>, new_name: Option<Seq<char>>) -> Seq<char> {
    match new_name {
        Some(new_name) => new_name,
        None => name,
    }
}

pub open spec fn changed_to<V>(current: V, change: Option<V>) -> V {
    match change {
        Some(value) => value,
        None => current,
    }
}

/// The schema after one step. A step on an entity that the schema lacks changes nothing.
pub open spec fn apply_step(schema: KeyedSchema, step: StepView) -> KeyedSchema {
    match step {
        StepView::CreateEnum { name, values } => KeyedSchema {
            enums: schema.enums.insert(
                name,
                KeyedEnum { values: values.to_set(), directives: Map::empty() },
            ),
            ..schema
        },
        StepView::DeleteEnum { name } => KeyedSchema { enums: schema.enums.remove(name), ..schema },
        StepView::UpdateEnum { name, new_name, created_values, deleted_values } => {
            if schema.enums.contains_key(name) {
                let updated = KeyedEnum {
                    values: schema.enums[name].values.union(created_values.to_set()).difference(
                        deleted_values.to_set(),
                    ),
                    ..schema.enums[name]
                };
                KeyedSchema {
                    enums: schema.enums.remove(name).insert(renamed(name, new_name), updated),
                    ..schema
                }
            } else {
                schema
            }
        },
        StepView::CreateModel { name, .. } => KeyedSchema {
            models: schema.models.insert(
                name,
                KeyedModel { fields: Map::empty(), directives: Map::empty() },
            ),
            ..schema
        },
        StepView::UpdateModel { name, new_name, .. } => {
            if schema.models.contains_key(name) {
                KeyedSchema {
                    models: schema.models.remove(name).insert(
                        renamed(name, new_name),
                        schema.models[name],
                    ),
                    ..schema
                }
            } else {
                schema
            }
        },
        StepView::DeleteModel { name } => KeyedSchema {
            models: schema.models.remove(name),
            ..schema
        },
        StepView::CreateField { model, name, tpe, arity, default, .. } => {
            if schema.models.contains_key(model) {
                let created = KeyedField { tpe, arity, default, directives: Map::empty() };
                KeyedSchema {
                    models: schema.models.insert(
                        model,
                        KeyedModel {
                            fields: schema.models[model].fields.insert(name, created),
                            ..schema.models[model]
                        },
                    ),
                    ..schema
                }
            } else {
                schema
            }
        },
        StepView::DeleteField { model, name } => {
            if schema.models.contains_key(model) {
                KeyedSchema {
                    models: schema.models.insert(
                        model,
                        KeyedModel {
                            fields: schema.models[model].fields.remove(name),
                            ..schema.models[model]
                        },
                    ),
                    ..schema
                }
            } else {
                schema
            }
        },
        StepView::UpdateField { model, name, new_name, tpe, arity, default } => {
            if schema.models.contains_key(model) && schema.models[model].fields.contains_key(name) {
                let current = schema.models[model].fields[name];
                let updated = KeyedField {
                    tpe: changed_to(current.tpe, tpe),
                    arity: changed_to(current.arity, arity),
                    default: changed_to(current.default, default),
                    directives: current.directives,
                };
                KeyedSchema {
                    models: schema.models.insert(
                        model,
                        KeyedModel {
                            fields: schema.models[model].fields.remove(name).insert(
                                renamed(name, new_name),
                                updated,
                            ),
                            ..schema.models[model]
                        },
                    ),
                    ..schema
                }
            } else {
                schema
            }
        },
        _ => match directive_location_of(step) {
            Some(location) => with_directives_at(
                schema,
                location,
                apply_directive_step(directives_at(schema, location), step),
            ),
            None => schema,
        },
    }
}

/// The schema after a list of steps, applied in order.
pub open spec fn apply_steps(schema: KeyedSchema, steps: Seq<StepView>) -> KeyedSchema
    decreases steps.len(),
{
    if steps.len() == 0 {
        schema
    } else {
        apply_step(apply_steps(schema, steps.drop_last()), steps.last())
    }
}

/// Applying two lists one after the other is applying their concatenation.
pub proof fn lemma_apply_concat(schema: KeyedSchema, first: Seq<StepView>, second: Seq<StepView>)
    ensures
        apply_steps(schema, first + second) == apply_steps(apply_steps(schema, first), second),
    decreases second.len(),
{
    if second.len() == 0 {
        assert(first + second =~= first);
    } else {
        lemma_apply_concat(schema, first, second.drop_last());
        assert((first + second).drop_last() =~= first + second.drop_last());
        assert((first + second).last() == second.last());
    }
}

pub proof fn lemma_apply_one(schema: KeyedSchema, step: StepView)
    ensures
        apply_steps(schema, seq![step]) == apply_step(schema, step),
{
    assert(seq![step].drop_last() =~= Seq::<StepView>::empty());
    assert(seq![step].last() == step);
    assert(apply_steps(schema, Seq::<StepView>::empty()) == schema);
}

pub proof fn lemma_apply_directives_one(directives: Directives, step: StepView)
    ensures
        apply_directive_steps(directives, seq![step]) == apply_directive_step(directives, step),
{
    assert(seq![step].drop_last() =~= Seq::<StepView>::empty());
    assert(seq![step].last() == step);
    assert(apply_directive_steps(directives, Seq::<StepView>::empty()) == directives);
}

pub proof fn lemma_apply_directives_concat(
    directives: Directives,
    first: Seq<StepView>,
    second: Seq<StepView>,
)
    ensures
        apply_directive_steps(directives, first + second) == apply_directive_steps(
            apply_directive_steps(directives, first),
            second,
        ),
    decreases second.len(),
{
    if second.len() == 0 {
        assert(first + second =~= first);
    } else {
        lemma_apply_directives_concat(directives, first, second.drop_last());
        assert((first + second).drop_last() =~= first + second.drop_last());
        assert((first + second).last() == second.last());
    }
}

pub proof fn lemma_apply_arguments_concat(
    arguments: Arguments,
    first: Seq<StepView>,
    second: Seq<StepView>,
)
    ensures
        apply_argument_steps(arguments, first + second) == apply_argument_steps(
            apply_argument_steps(arguments, first),
            second,
        ),
    decreases second.len(),
{
    if second.len() == 0 {
        assert(first + second =~= first);
    } else {
        lemma_apply_arguments_concat(arguments, first, second.drop_last());
        assert((first + second).drop_last() =~= first + second.drop_last());
        assert((first + second).last() == second.last());
    }
}

/// Reading the directives of an entity after writing them gives what was written, and a
/// second write replaces the first.
proof fn lemma_directives_written(
    schema: KeyedSchema,
    location: LocationView,
    first: Directives,
    second: Directives,
)
    ensures
        has_location(with_directives_at(schema, location, first), location) == has_location(
            schema,
            location,
        ),
        has_location(schema, location) ==> directives_at(
            with_directives_at(schema, location, first),
            location,
        ) == first,
        with_directives_at(with_directives_at(schema, location, first), location, second)
            == with_directives_at(schema, location, second),
{
    let once = with_directives_at(schema, location, first);
    let twice = with_directives_at(once, location, second);
    let direct = with_directives_at(schema, location, second);
    if has_location(schema, location) {
        match location {
            LocationView::Enum { enum_name } => {
                assert(twice.enums =~= direct.enums);
            },
            LocationView::Model { model } => {
                assert(twice.models =~= direct.models);
            },
            LocationView::Field { model, field } => {
                assert(twice.models[model].fields =~= direct.models[model].fields);
                assert(twice.models =~= direct.models);
            },
        }
    }
}

/// Steps on the directives of one entity change the directives of that entity only.
pub proof fn lemma_apply_at(schema: KeyedSchema, location: LocationView, steps: Seq<StepView>)
    requires
        all_at(steps, location),
    ensures
        apply_steps(schema, steps) == with_directives_at(
            schema,
            location,
            apply_directive_steps(directives_at(schema, location), steps),
        ),
    decreases steps.len(),
{
    if steps.len() == 0 {
        if has_location(schema, location) {
            let same = with_directives_at(schema, location, directives_at(schema, location));
            match location {
                LocationView::Enum { enum_name } => {
                    assert(same.enums =~= schema.enums);
                },
                LocationView::Model { model } => {
                    assert(same.models =~= schema.models);
                },
                LocationView::Field { model, field } => {
                    assert(same.models[model].fields =~= schema.models[model].fields);
                    assert(same.models =~= schema.models);
                },
            }
        }
    } else {
        let rest = steps.drop_last();
        let last = steps.last();
        assert(all_at(rest, location)) by {
            assert forall|i: int| 0 <= i < rest.len() implies directive_location_of(
                #[trigger] rest[i],
            ) == Some(location) by {
                assert(rest[i] == steps[i]);
            }
        }
        lemma_apply_at(schema, location, rest);
        let before = apply_directive_steps(directives_at(schema, location), rest);
        lemma_directives_written(
            schema,
            location,
            before,
            apply_directive_step(before, last),
        );
        assert(directive_location_of(steps[steps.len() - 1]) == Some(location));
    }
}

} // verus!
