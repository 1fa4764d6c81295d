//! Replaying the steps on models and on their fields.

use crate::ast::{FieldView, ModelView};
use crate::datamodel_differ::directives::directive_string_value;
use crate::datamodel_differ::fields::{default_value_of, without_default};
use crate::datamodel_differ::identity::lemma_without_default_valid;
use crate::datamodel_differ::ordering::{lemma_created_directives_at, lemma_directive_steps_at};
use crate::datamodel_differ::{
    created_directives_steps, created_field_steps, created_fields_steps, created_model_steps,
    created_models_steps, deleted_fields_steps, deleted_models_steps, directive_steps,
    field_update_step, model_steps, updated_field_steps, updated_fields_steps,
    updated_model_steps, updated_models_steps,
};
use crate::keyed::{
    field_by_name, keyed_by, keyed_directives, keyed_field, keyed_model, keys_of,
    lemma_has_key_push, lemma_keyed_push, lemma_matched_keyed, lemma_matched_members,
    lemma_three_way, lemma_unmatched_keyed, model_by_name, Arguments, KeyedField, KeyedModel,
    KeyedSchema,
};
use crate::names::{has_key, matched, unmatched, Keyed};
use crate::replay::directives::{lemma_created_directives_applied, lemma_directive_steps_applied};
use crate::replay::{
    apply_step, apply_steps, lemma_apply_at, lemma_apply_concat, lemma_apply_one,
    with_directives_at,
};
use crate::steps::{LocationView, StepView};
use crate::validity::{distinct_keys, valid_field, valid_model};
use vstd::prelude::*;

verus! {

pub open spec fn next_field() -> spec_fn((FieldView, FieldView)) -> KeyedField {
    |pair: (FieldView, FieldView)| keyed_field(pair.1)
}

pub open spec fn next_model() -> spec_fn((ModelView, ModelView)) -> KeyedModel {
    |pair: (ModelView, ModelView)| keyed_model(pair.1)
}

/// The schema with other models.
pub open spec fn with_models(
    schema: KeyedSchema,
    models: Map<Seq<char>, KeyedModel>,
) -> KeyedSchema {
    KeyedSchema { models, ..schema }
}

/// The schema with other fields in one model.
pub open spec fn with_fields(
    schema: KeyedSchema,
    model: Seq<char>,
    fields: Map<Seq<char>, KeyedField>,
) -> KeyedSchema {
    KeyedSchema {
        models: schema.models.insert(model, KeyedModel { fields, ..schema.models[model] }),
        ..schema
    }
}

/// A created field stands as it was declared.
proof fn lemma_created_field_applied(schema: KeyedSchema, model: Seq<char>, created: FieldView)
    requires
        schema.models.contains_key(model),
        valid_field(created),
    ensures
        apply_steps(schema, created_field_steps(model, created)) == with_fields(
            schema,
            model,
            schema.models[model].fields.insert(created.name, keyed_field(created)),
        ),
{
    let location = LocationView::Field { model, field: created.name };
    let create = StepView::CreateField {
        model,
        name: created.name,
        tpe: created.field_type,
        arity: created.arity,
        db_name: directive_string_value("map"@, created.directives),
        default: default_value_of(created.directives),
    };
    let plain = without_default(created.directives);
    let on_directives = created_directives_steps(location, plain);
    lemma_apply_concat(schema, seq![create], on_directives);
    lemma_apply_one(schema, create);
    let bare = apply_step(schema, create);
    lemma_created_directives_at(location, plain);
    lemma_apply_at(bare, location, on_directives);
    lemma_without_default_valid(created.directives);
    lemma_created_directives_applied(Map::empty(), location, plain);
    assert(Map::<Seq<char>, Arguments>::empty().union_prefer_right(keyed_directives(plain))
        =~= keyed_directives(plain));
    let result = with_directives_at(bare, location, keyed_directives(plain));
    let target = with_fields(
        schema,
        model,
        schema.models[model].fields.insert(created.name, keyed_field(created)),
    );
    assert(result.models[model].fields =~= target.models[model].fields);
    assert(result.models =~= target.models);
}

/// Created fields are added to the fields of the model.
proof fn lemma_created_fields_applied(
    schema: KeyedSchema,
    model: Seq<char>,
    items: Seq<FieldView>,
)
    requires
        schema.models.contains_key(model),
        distinct_keys(items),
        forall|i: int| 0 <= i < items.len() ==> valid_field(#[trigger] items[i]),
    ensures
        apply_steps(schema, created_fields_steps(model, items)) == with_fields(
            schema,
            model,
            schema.models[model].fields.union_prefer_right(keyed_by(items, field_by_name())),
        ),
    decreases items.len(),
{
    let fields = schema.models[model].fields;
    if items.len() == 0 {
        assert(fields.union_prefer_right(keyed_by(items, field_by_name())) =~= fields);
        assert(with_fields(schema, model, fields).models =~= schema.models);
    } else {
        let rest = items.drop_last();
        let last = items.last();
        assert(items =~= rest.push(last));
        assert(distinct_keys(rest));
        assert forall|i: int| 0 <= i < rest.len() implies valid_field(#[trigger] rest[i]) by {
            assert(rest[i] == items[i]);
        }
        lemma_created_fields_applied(schema, model, rest);
        assert(!has_key(rest, last.key())) by {
            if has_key(rest, last.key()) {
                let i = choose|i: int| 0 <= i < rest.len() && (#[trigger] rest[i]).key() == last.key();
                assert(items[i].key() != items[items.len() - 1].key());
            }
        }
        lemma_keyed_push(rest, last, field_by_name());
        let before = with_fields(
            schema,
            model,
            fields.union_prefer_right(keyed_by(rest, field_by_name())),
        );
        lemma_apply_concat(
            schema,
            created_fields_steps(model, rest),
            created_field_steps(model, last),
        );
        assert(valid_field(items[items.len() - 1]));
        lemma_created_field_applied(before, model, last);
        let result = with_fields(
            before,
            model,
            before.models[model].fields.insert(last.name, keyed_field(last)),
        );
        let target = with_fields(
            schema,
            model,
            fields.union_prefer_right(keyed_by(items, field_by_name())),
        );
        assert(result.models[model].fields =~= target.models[model].fields);
        assert(result.models =~= target.models);
    }
}

/// Deleted fields are taken from the fields of the model.
proof fn lemma_deleted_fields_applied(
    schema: KeyedSchema,
    model: Seq<char>,
    items: Seq<FieldView>,
)
    requires
        schema.models.contains_key(model),
    ensures
        apply_steps(schema, deleted_fields_steps(model, items)) == with_fields(
            schema,
            model,
            schema.models[model].fields.remove_keys(keys_of(items)),
        ),
    decreases items.len(),
{
    let fields = schema.models[model].fields;
    if items.len() == 0 {
        assert(fields.remove_keys(keys_of(items)) =~= fields);
        assert(with_fields(schema, model, fields).models =~= schema.models);
    } else {
        let rest = items.drop_last();
        let last = items.last();
        assert(items =~= rest.push(last));
        lemma_deleted_fields_applied(schema, model, rest);
        let steps = deleted_fields_steps(model, items);
        assert(steps.drop_last() =~= deleted_fields_steps(model, rest));
        assert forall|key: Seq<char>|
            keys_of(items).contains(key) <==> keys_of(rest).contains(key) || key == last.name by {
            lemma_has_key_push(rest, last, key);
        }
        let before = with_fields(schema, model, fields.remove_keys(keys_of(rest)));
        let result = apply_step(before, steps.last());
        let target = with_fields(schema, model, fields.remove_keys(keys_of(items)));
        assert(result.models[model].fields =~= target.models[model].fields);
        assert(result.models =~= target.models);
    }
}

/// The steps on a field that both versions have leave it as the next version declares it.
proof fn lemma_updated_field_applied(
    schema: KeyedSchema,
    model: Seq<char>,
    pair: (FieldView, FieldView),
)
    requires
        schema.models.contains_key(model),
        valid_field(pair.0),
        valid_field(pair.1),
        pair.1.name == pair.0.name,
        schema.models[model].fields.contains_key(pair.0.name),
        schema.models[model].fields[pair.0.name] == keyed_field(pair.0),
    ensures
        apply_steps(schema, updated_field_steps(model, pair)) == with_fields(
            schema,
            model,
            schema.models[model].fields.insert(pair.0.name, keyed_field(pair.1)),
        ),
{
    let name = pair.0.name;
    let fields = schema.models[model].fields;
    let location = LocationView::Field { model, field: name };
    let previous = without_default(pair.0.directives);
    let next = without_default(pair.1.directives);
    let on_directives = directive_steps(location, previous, next);
    lemma_apply_concat(schema, field_update_step(model, pair), on_directives);
    let half = KeyedField {
        tpe: pair.1.field_type,
        arity: pair.1.arity,
        default: default_value_of(pair.1.directives),
        directives: keyed_directives(previous),
    };
    let updated = with_fields(schema, model, fields.insert(name, half));
    if field_update_step(model, pair).len() == 0 {
        assert(half == keyed_field(pair.0));
        assert(fields.insert(name, half) =~= fields);
        assert(updated.models =~= schema.models);
        assert(apply_steps(schema, field_update_step(model, pair)) == updated);
    } else {
        let step = field_update_step(model, pair)[0];
        assert(field_update_step(model, pair) =~= seq![step]);
        lemma_apply_one(schema, step);
        let stepped = apply_step(schema, step);
        assert(stepped.models[model].fields =~= updated.models[model].fields);
        assert(stepped.models =~= updated.models);
    }
    lemma_directive_steps_at(location, previous, next);
    lemma_apply_at(updated, location, on_directives);
    lemma_without_default_valid(pair.0.directives);
    lemma_without_default_valid(pair.1.directives);
    lemma_directive_steps_applied(location, previous, next);
    let result = with_directives_at(updated, location, keyed_directives(next));
    let target = with_fields(schema, model, fields.insert(name, keyed_field(pair.1)));
    assert(result.models[model].fields =~= target.models[model].fields);
    assert(result.models =~= target.models);
}

/// Fields that both versions have stand as the next version declares them.
proof fn lemma_updated_fields_applied(
    schema: KeyedSchema,
    model: Seq<char>,
    pairs: Seq<(FieldView, FieldView)>,
)
    requires
        schema.models.contains_key(model),
        distinct_keys(pairs),
        forall|j: int|
            0 <= j < pairs.len() ==> valid_field((#[trigger] pairs[j]).0) && valid_field(
                pairs[j].1,
            ) && pairs[j].1.name == pairs[j].0.name && schema.models[model].fields.contains_key(
                pairs[j].0.name,
            ) && schema.models[model].fields[pairs[j].0.name] == keyed_field(pairs[j].0),
    ensures
        apply_steps(schema, updated_fields_steps(model, pairs)) == with_fields(
            schema,
            model,
            schema.models[model].fields.union_prefer_right(keyed_by(pairs, next_field())),
        ),
    decreases pairs.len(),
{
    let fields = schema.models[model].fields;
    if pairs.len() == 0 {
        assert(fields.union_prefer_right(keyed_by(pairs, next_field())) =~= fields);
        assert(with_fields(schema, model, fields).models =~= schema.models);
    } else {
        let rest = pairs.drop_last();
        let last = pairs.last();
        assert(pairs =~= rest.push(last));
        assert(distinct_keys(rest));
        assert forall|j: int| 0 <= j < rest.len() implies valid_field((#[trigger] rest[j]).0)
            && valid_field(rest[j].1) && rest[j].1.name == rest[j].0.name && fields.contains_key(
            rest[j].0.name,
        ) && fields[rest[j].0.name] == keyed_field(rest[j].0) by {
            assert(rest[j] == pairs[j]);
        }
        lemma_updated_fields_applied(schema, model, rest);
        assert(!has_key(rest, last.key())) by {
            if has_key(rest, last.key()) {
                let i = choose|i: int| 0 <= i < rest.len() && (#[trigger] rest[i]).key() == last.key();
                assert(pairs[i].key() != pairs[pairs.len() - 1].key());
            }
        }
        lemma_keyed_push(rest, last, next_field());
        let before = with_fields(
            schema,
            model,
            fields.union_prefer_right(keyed_by(rest, next_field())),
        );
        lemma_apply_concat(
            schema,
            updated_fields_steps(model, rest),
            updated_field_steps(model, last),
        );
        assert(valid_field(pairs[pairs.len() - 1].0));
        assert(before.models[model].fields[last.0.name] == fields[last.0.name]);
        lemma_updated_field_applied(before, model, last);
        let result = with_fields(
            before,
            model,
            before.models[model].fields.insert(last.0.name, keyed_field(last.1)),
        );
        let target = with_fields(
            schema,
            model,
            fields.union_prefer_right(keyed_by(pairs, next_field())),
        );
        assert(result.models[model].fields =~= target.models[model].fields);
        assert(result.models =~= target.models);
    }
}

/// A created model stands as it was declared.
proof fn lemma_created_model_applied(schema: KeyedSchema, created: ModelView)
    requires
        valid_model(created),
    ensures
        apply_steps(schema, created_model_steps(created)) == with_models(
            schema,
            schema.models.insert(created.name, keyed_model(created)),
        ),
{
    let name = created.name;
    let location = LocationView::Model { model: name };
    let create = StepView::CreateModel {
        name,
        db_name: directive_string_value("map"@, created.directives),
        embedded: false,
    };
    let on_fields = created_fields_steps(name, created.fields);
    let on_directives = created_directives_steps(location, created.directives);
    lemma_apply_concat(schema, seq![create] + on_fields, on_directives);
    lemma_apply_concat(schema, seq![create], on_fields);
    lemma_apply_one(schema, create);
    let bare = apply_step(schema, create);
    lemma_created_fields_applied(bare, name, created.fields);
    assert(Map::<Seq<char>, KeyedField>::empty().union_prefer_right(
        keyed_by(created.fields, field_by_name()),
    ) =~= keyed_by(created.fields, field_by_name()));
    let filled = with_fields(bare, name, keyed_by(created.fields, field_by_name()));
    lemma_created_directives_at(location, created.directives);
    lemma_apply_at(filled, location, on_directives);
    lemma_created_directives_applied(Map::empty(), location, created.directives);
    assert(Map::<Seq<char>, Arguments>::empty().union_prefer_right(
        keyed_directives(created.directives),
    ) =~= keyed_directives(created.directives));
    let result = with_directives_at(filled, location, keyed_directives(created.directives));
    assert(result.models =~= schema.models.insert(name, keyed_model(created)));
}

/// Created models are added to the models that are there.
proof fn lemma_created_models_applied(schema: KeyedSchema, items: Seq<ModelView>)
    requires
        distinct_keys(items),
        forall|i: int| 0 <= i < items.len() ==> valid_model(#[trigger] items[i]),
    ensures
        apply_steps(schema, created_models_steps(items)) == with_models(
            schema,
            schema.models.union_prefer_right(keyed_by(items, model_by_name())),
        ),
    decreases items.len(),
{
    if items.len() == 0 {
        assert(schema.models.union_prefer_right(keyed_by(items, model_by_name()))
            =~= schema.models);
    } else {
        let rest = items.drop_last();
        let last = items.last();
        assert(items =~= rest.push(last));
        assert(distinct_keys(rest));
        assert forall|i: int| 0 <= i < rest.len() implies valid_model(#[trigger] rest[i]) by {
            assert(rest[i] == items[i]);
        }
        lemma_created_models_applied(schema, rest);
        assert(!has_key(rest, last.key())) by {
            if has_key(rest, last.key()) {
                let i = choose|i: int| 0 <= i < rest.len() && (#[trigger] rest[i]).key() == last.key();
                assert(items[i].key() != items[items.len() - 1].key());
            }
        }
        lemma_keyed_push(rest, last, model_by_name());
        let before = with_models(
            schema,
            schema.models.union_prefer_right(keyed_by(rest, model_by_name())),
        );
        lemma_apply_concat(schema, created_models_steps(rest), created_model_steps(last));
        assert(valid_model(items[items.len() - 1]));
        lemma_created_model_applied(before, last);
        assert(before.models.insert(last.name, keyed_model(last))
            =~= schema.models.union_prefer_right(keyed_by(items, model_by_name())));
    }
}

/// Deleted models are taken from the models that are there.
proof fn lemma_deleted_models_applied(schema: KeyedSchema, items: Seq<ModelView>)
    ensures
        apply_steps(schema, deleted_models_steps(items)) == with_models(
            schema,
            schema.models.remove_keys(keys_of(items)),
        ),
    decreases items.len(),
{
    if items.len() == 0 {
        assert(schema.models.remove_keys(keys_of(items)) =~= schema.models);
    } else {
        let rest = items.drop_last();
        let last = items.last();
        assert(items =~= rest.push(last));
        lemma_deleted_models_applied(schema, rest);
        let steps = deleted_models_steps(items);
        assert(steps.drop_last() =~= deleted_models_steps(rest));
        assert forall|key: Seq<char>|
            keys_of(items).contains(key) <==> keys_of(rest).contains(key) || key == last.name by {
            lemma_has_key_push(rest, last, key);
        }
        assert(schema.models.remove_keys(keys_of(rest)).remove(last.name)
            =~= schema.models.remove_keys(keys_of(items)));
    }
}

/// The steps on a model that both versions have leave it as the next version declares it.
proof fn lemma_updated_model_applied(schema: KeyedSchema, pair: (ModelView, ModelView))
    requires
        valid_model(pair.0),
        valid_model(pair.1),
        pair.1.name == pair.0.name,
        schema.models.contains_key(pair.0.name),
        schema.models[pair.0.name] == keyed_model(pair.0),
    ensures
        apply_steps(schema, updated_model_steps(pair)) == with_models(
            schema,
            schema.models.insert(pair.0.name, keyed_model(pair.1)),
        ),
{
    let name = pair.0.name;
    let previous = pair.0.fields;
    let next = pair.1.fields;
    let location = LocationView::Model { model: name };
    let created = unmatched(next, previous);
    let pairs = matched(previous, next);
    let deleted = unmatched(previous, next);
    let on_created = created_fields_steps(name, created);
    let on_pairs = updated_fields_steps(name, pairs);
    let on_deleted = deleted_fields_steps(name, deleted);
    let on_directives = directive_steps(location, pair.0.directives, pair.1.directives);
    lemma_unmatched_keyed(next, previous);
    lemma_matched_keyed(previous, next);
    lemma_matched_members(previous, next);
    assert forall|both: (FieldView, FieldView)| #[trigger] next_field()(both) == field_by_name()(
        both.1,
    ) by {}
    lemma_three_way(previous, next, field_by_name(), next_field());
    let start = keyed_by(previous, field_by_name());
    assert forall|i: int| 0 <= i < created.len() implies valid_field(#[trigger] created[i]) by {
        let k = choose|k: int| 0 <= k < next.len() && next[k] == created[i];
        assert(valid_field(next[k]));
    }
    lemma_created_fields_applied(schema, name, created);
    let fields_created = start.union_prefer_right(keyed_by(created, field_by_name()));
    let after_created = with_fields(schema, name, fields_created);
    assert forall|j: int| 0 <= j < pairs.len() implies valid_field((#[trigger] pairs[j]).0)
        && valid_field(pairs[j].1) && pairs[j].1.name == pairs[j].0.name
        && fields_created.contains_key(pairs[j].0.name) && fields_created[pairs[j].0.name]
        == keyed_field(pairs[j].0) by {
        let both = pairs[j];
        let a = choose|i: int| 0 <= i < previous.len() && previous[i] == both.0;
        let b = choose|i: int| 0 <= i < next.len() && next[i] == both.1;
        assert(valid_field(previous[a]) && valid_field(next[b]));
        assert(both.1.key() == both.0.key());
        assert(fields_created[both.0.key()] == field_by_name()(both.0));
    }
    lemma_updated_fields_applied(after_created, name, pairs);
    let fields_updated = fields_created.union_prefer_right(keyed_by(pairs, next_field()));
    let after_updated = with_fields(after_created, name, fields_updated);
    lemma_deleted_fields_applied(after_updated, name, deleted);
    let fields_deleted = fields_updated.remove_keys(keys_of(deleted));
    let after_deleted = with_fields(after_updated, name, fields_deleted);
    assert(fields_deleted == keyed_by(next, field_by_name()));
    lemma_directive_steps_at(location, pair.0.directives, pair.1.directives);
    lemma_apply_at(after_deleted, location, on_directives);
    lemma_directive_steps_applied(location, pair.0.directives, pair.1.directives);
    lemma_apply_concat(schema, on_created, on_pairs);
    lemma_apply_concat(schema, on_created + on_pairs, on_deleted);
    lemma_apply_concat(schema, on_created + on_pairs + on_deleted, on_directives);
    let result = with_directives_at(
        after_deleted,
        location,
        keyed_directives(pair.1.directives),
    );
    assert(result.models =~= schema.models.insert(name, keyed_model(pair.1)));
}

/// Models that both versions have stand as the next version declares them.
proof fn lemma_updated_models_applied(schema: KeyedSchema, pairs: Seq<(ModelView, ModelView)>)
    requires
        distinct_keys(pairs),
        forall|j: int|
            0 <= j < pairs.len() ==> valid_model((#[trigger] pairs[j]).0) && valid_model(
                pairs[j].1,
            ) && pairs[j].1.name == pairs[j].0.name && schema.models.contains_key(pairs[j].0.name)
                && schema.models[pairs[j].0.name] == keyed_model(pairs[j].0),
    ensures
        apply_steps(schema, updated_models_steps(pairs)) == with_models(
            schema,
            schema.models.union_prefer_right(keyed_by(pairs, next_model())),
        ),
    decreases pairs.len(),
{
    if pairs.len() == 0 {
        assert(schema.models.union_prefer_right(keyed_by(pairs, next_model())) =~= schema.models);
    } else {
        let rest = pairs.drop_last();
        let last = pairs.last();
        assert(pairs =~= rest.push(last));
        assert(distinct_keys(rest));
        assert forall|j: int| 0 <= j < rest.len() implies valid_model((#[trigger] rest[j]).0)
            && valid_model(rest[j].1) && rest[j].1.name == rest[j].0.name
            && schema.models.contains_key(rest[j].0.name) && schema.models[rest[j].0.name]
            == keyed_model(rest[j].0) by {
            assert(rest[j] == pairs[j]);
        }
        lemma_updated_models_applied(schema, rest);
        assert(!has_key(rest, last.key())) by {
            if has_key(rest, last.key()) {
                let i = choose|i: int| 0 <= i < rest.len() && (#[trigger] rest[i]).key() == last.key();
                assert(pairs[i].key() != pairs[pairs.len() - 1].key());
            }
        }
        lemma_keyed_push(rest, last, next_model());
        let before = with_models(
            schema,
            schema.models.union_prefer_right(keyed_by(rest, next_model())),
        );
        lemma_apply_concat(schema, updated_models_steps(rest), updated_model_steps(last));
        assert(valid_model(pairs[pairs.len() - 1].0));
        assert(before.models[last.0.name] == schema.models[last.0.name]);
        lemma_updated_model_applied(before, last);
        assert(before.models.insert(last.0.name, keyed_model(last.1))
            =~= schema.models.union_prefer_right(keyed_by(pairs, next_model())));
    }
}

/// The steps on models lead from the models of the previous schema to those of the next.
pub proof fn lemma_model_steps_applied(
    schema: KeyedSchema,
    previous: Seq<ModelView>,
    next: Seq<ModelView>,
)
    requires
        distinct_keys(previous),
        distinct_keys(next),
        forall|i: int| 0 <= i < previous.len() ==> valid_model(#[trigger] previous[i]),
        forall|i: int| 0 <= i < next.len() ==> valid_model(#[trigger] next[i]),
        schema.models == keyed_by(previous, model_by_name()),
    ensures
        apply_steps(schema, model_steps(previous, next)) == with_models(
            schema,
            keyed_by(next, model_by_name()),
        ),
{
    let created = unmatched(next, previous);
    let pairs = matched(previous, next);
    let deleted = unmatched(previous, next);
    lemma_unmatched_keyed(next, previous);
    lemma_matched_keyed(previous, next);
    lemma_matched_members(previous, next);
    assert forall|pair: (ModelView, ModelView)| #[trigger] next_model()(pair) == model_by_name()(
        pair.1,
    ) by {}
    lemma_three_way(previous, next, model_by_name(), next_model());
    assert forall|i: int| 0 <= i < created.len() implies valid_model(#[trigger] created[i]) by {
        let k = choose|k: int| 0 <= k < next.len() && next[k] == created[i];
        assert(valid_model(next[k]));
    }
    lemma_created_models_applied(schema, created);
    let after_created = with_models(
        schema,
        schema.models.union_prefer_right(keyed_by(created, model_by_name())),
    );
    lemma_deleted_models_applied(after_created, deleted);
    let after_deleted = with_models(schema, after_created.models.remove_keys(keys_of(deleted)));
    lemma_unmatched_keyed(previous, next);
    assert forall|j: int| 0 <= j < pairs.len() implies valid_model((#[trigger] pairs[j]).0)
        && valid_model(pairs[j].1) && pairs[j].1.name == pairs[j].0.name
        && after_deleted.models.contains_key(pairs[j].0.name)
        && after_deleted.models[pairs[j].0.name] == keyed_model(pairs[j].0) by {
        let pair = pairs[j];
        let a = choose|i: int| 0 <= i < previous.len() && previous[i] == pair.0;
        let b = choose|i: int| 0 <= i < next.len() && next[i] == pair.1;
        assert(valid_model(previous[a]) && valid_model(next[b]));
        assert(pair.1.key() == pair.0.key());
        assert(has_key(next, pair.0.key()));
        assert(!has_key(deleted, pair.0.key()));
        assert(after_created.models[pair.0.key()] == model_by_name()(pair.0));
    }
    lemma_updated_models_applied(after_deleted, pairs);
    lemma_apply_concat(schema, created_models_steps(created), deleted_models_steps(deleted));
    lemma_apply_concat(
        schema,
        created_models_steps(created) + deleted_models_steps(deleted),
        updated_models_steps(pairs),
    );
    let result = after_deleted.models.union_prefer_right(keyed_by(pairs, next_model()));
    let reordered = after_created.models.union_prefer_right(
        keyed_by(pairs, next_model()),
    ).remove_keys(keys_of(deleted));
    assert(result =~= reordered) by {
        assert forall|key: Seq<char>| has_key(pairs, key) implies !has_key(deleted, key) by {}
    }
}

} // verus!
