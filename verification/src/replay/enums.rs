//! Replaying the steps on enums.

use crate::ast::{EnumValueView, EnumView};
use crate::datamodel_differ::ordering::{lemma_created_directives_at, lemma_directive_steps_at};
use crate::datamodel_differ::{
    created_directives_steps, created_enum_steps, created_enums_steps, deleted_enums_steps,
    directive_steps, enum_steps, enum_update_step, updated_enum_steps, updated_enums_steps,
    value_names,
};
use crate::keyed::{
    enum_by_name, keyed_by, keyed_directives, keyed_enum, keys_of, lemma_has_key_push,
    lemma_keyed_push, lemma_matched_keyed, lemma_matched_members, lemma_three_way,
    lemma_unmatched_keyed, KeyedEnum, KeyedSchema,
};
use crate::names::{has_key, matched, unmatched, Keyed};
use crate::replay::directives::{lemma_created_directives_applied, lemma_directive_steps_applied};
use crate::replay::{
    apply_step,
    apply_steps,
    lemma_apply_at,
    lemma_apply_concat,
    lemma_apply_one,
    with_directives_at,
};
use crate::steps::{LocationView, StepView};
use crate::validity::{distinct_keys, valid_enum};
use vstd::prelude::*;

verus! {

pub open spec fn next_enum() -> spec_fn((EnumView, EnumView)) -> KeyedEnum {
    |pair: (EnumView, EnumView)| keyed_enum(pair.1)
}

/// The schema with other enums.
pub open spec fn with_enums(schema: KeyedSchema, enums: Map<Seq<char>, KeyedEnum>) -> KeyedSchema {
    KeyedSchema { enums, ..schema }
}

/// The names of a list of values, as a set.
proof fn lemma_value_names(values: Seq<EnumValueView>)
    ensures
        value_names(values).to_set() == keys_of(values),
{
    let names = value_names(values);
    assert forall|name: Seq<char>| names.to_set().contains(name) <==> keys_of(values).contains(
        name,
    ) by {
        if names.contains(name) {
            let i = choose|i: int| 0 <= i < names.len() && names[i] == name;
            assert(values[i].key() == name);
        }
        if has_key(values, name) {
            let i = choose|i: int| 0 <= i < values.len() && (#[trigger] values[i]).key() == name;
            assert(names[i] == name);
        }
    }
    assert(names.to_set() =~= keys_of(values));
}

/// A created enum stands as it was declared.
proof fn lemma_created_enum_applied(schema: KeyedSchema, created: EnumView)
    requires
        valid_enum(created),
    ensures
        apply_steps(schema, created_enum_steps(created)) == with_enums(
            schema,
            schema.enums.insert(created.name, keyed_enum(created)),
        ),
{
    let location = LocationView::Enum { enum_name: created.name };
    let create = StepView::CreateEnum { name: created.name, values: value_names(created.values) };
    let on_directives = created_directives_steps(location, created.directives);
    lemma_apply_concat(schema, seq![create], on_directives);
    lemma_apply_one(schema, create);
    lemma_value_names(created.values);
    let bare = apply_step(schema, create);
    lemma_created_directives_at(location, created.directives);
    lemma_apply_at(bare, location, on_directives);
    lemma_created_directives_applied(Map::empty(), location, created.directives);
    assert(Map::<Seq<char>, crate::keyed::Arguments>::empty().union_prefer_right(
        keyed_directives(created.directives),
    ) =~= keyed_directives(created.directives));
    let result = with_directives_at(bare, location, keyed_directives(created.directives));
    assert(result.enums =~= schema.enums.insert(created.name, keyed_enum(created)));
}

/// Created enums are added to the enums that are there.
proof fn lemma_created_enums_applied(schema: KeyedSchema, items: Seq<EnumView>)
    requires
        distinct_keys(items),
        forall|i: int| 0 <= i < items.len() ==> valid_enum(#[trigger] items[i]),
    ensures
        apply_steps(schema, created_enums_steps(items)) == with_enums(
            schema,
            schema.enums.union_prefer_right(keyed_by(items, enum_by_name())),
        ),
    decreases items.len(),
{
    if items.len() == 0 {
        assert(schema.enums.union_prefer_right(keyed_by(items, enum_by_name())) =~= schema.enums);
    } else {
        let rest = items.drop_last();
        let last = items.last();
        assert(items =~= rest.push(last));
        assert(distinct_keys(rest));
        assert forall|i: int| 0 <= i < rest.len() implies valid_enum(#[trigger] rest[i]) by {
            assert(rest[i] == items[i]);
        }
        lemma_created_enums_applied(schema, rest);
        assert(!has_key(rest, last.key())) by {
            if has_key(rest, last.key()) {
                let i = choose|i: int| 0 <= i < rest.len() && (#[trigger] rest[i]).key() == last.key();
                assert(items[i].key() != items[items.len() - 1].key());
            }
        }
        lemma_keyed_push(rest, last, enum_by_name());
        let before = with_enums(
            schema,
            schema.enums.union_prefer_right(keyed_by(rest, enum_by_name())),
        );
        lemma_apply_concat(schema, created_enums_steps(rest), created_enum_steps(last));
        assert(valid_enum(items[items.len() - 1]));
        lemma_created_enum_applied(before, last);
        assert(before.enums.insert(last.name, keyed_enum(last)) =~= schema.enums.union_prefer_right(
            keyed_by(items, enum_by_name()),
        ));
    }
}

/// Deleted enums are taken from the enums that are there.
proof fn lemma_deleted_enums_applied(schema: KeyedSchema, items: Seq<EnumView>)
    ensures
        apply_steps(schema, deleted_enums_steps(items)) == with_enums(
            schema,
            schema.enums.remove_keys(keys_of(items)),
        ),
    decreases items.len(),
{
    if items.len() == 0 {
        assert(schema.enums.remove_keys(keys_of(items)) =~= schema.enums);
    } else {
        let rest = items.drop_last();
        let last = items.last();
        assert(items =~= rest.push(last));
        lemma_deleted_enums_applied(schema, rest);
        let steps = deleted_enums_steps(items);
        assert(steps.drop_last() =~= deleted_enums_steps(rest));
        assert forall|key: Seq<char>|
            keys_of(items).contains(key) <==> keys_of(rest).contains(key) || key == last.name by {
            lemma_has_key_push(rest, last, key);
        }
        assert(schema.enums.remove_keys(keys_of(rest)).remove(last.name)
            =~= schema.enums.remove_keys(keys_of(items)));
    }
}

/// The steps on an enum that both versions have leave it as the next version declares it.
proof fn lemma_updated_enum_applied(schema: KeyedSchema, pair: (EnumView, EnumView))
    requires
        valid_enum(pair.0),
        valid_enum(pair.1),
        pair.1.name == pair.0.name,
        schema.enums.contains_key(pair.0.name),
        schema.enums[pair.0.name] == keyed_enum(pair.0),
    ensures
        apply_steps(schema, updated_enum_steps(pair)) == with_enums(
            schema,
            schema.enums.insert(pair.0.name, keyed_enum(pair.1)),
        ),
{
    let name = pair.0.name;
    let location = LocationView::Enum { enum_name: name };
    let on_directives = directive_steps(location, pair.0.directives, pair.1.directives);
    let created = unmatched(pair.1.values, pair.0.values);
    let deleted = unmatched(pair.0.values, pair.1.values);
    lemma_unmatched_keyed(pair.1.values, pair.0.values);
    lemma_unmatched_keyed(pair.0.values, pair.1.values);
    lemma_value_names(created);
    lemma_value_names(deleted);
    lemma_apply_concat(schema, enum_update_step(pair), on_directives);
    let values = keys_of(pair.0.values).union(keys_of(created)).difference(keys_of(deleted));
    assert(values =~= keys_of(pair.1.values));
    let updated = with_enums(
        schema,
        schema.enums.insert(
            name,
            KeyedEnum {
                values: keys_of(pair.1.values),
                directives: keyed_directives(pair.0.directives),
            },
        ),
    );
    if enum_update_step(pair).len() == 0 {
        assert(created.len() == 0 && deleted.len() == 0);
        assert(keys_of(created) =~= Set::<Seq<char>>::empty()) by {
            assert forall|key: Seq<char>| !has_key(created, key) by {}
        }
        assert(keys_of(deleted) =~= Set::<Seq<char>>::empty()) by {
            assert forall|key: Seq<char>| !has_key(deleted, key) by {}
        }
        assert(keys_of(pair.0.values) =~= values);
        assert(schema.enums.insert(name, keyed_enum(pair.0)) =~= schema.enums);
        assert(apply_steps(schema, enum_update_step(pair)) == updated);
    } else {
        let step = enum_update_step(pair)[0];
        assert(enum_update_step(pair) =~= seq![step]);
        lemma_apply_one(schema, step);
        assert(apply_step(schema, step).enums =~= updated.enums);
    }
    lemma_directive_steps_at(location, pair.0.directives, pair.1.directives);
    lemma_apply_at(updated, location, on_directives);
    lemma_directive_steps_applied(location, pair.0.directives, pair.1.directives);
    let result = with_directives_at(updated, location, keyed_directives(pair.1.directives));
    assert(result.enums =~= schema.enums.insert(name, keyed_enum(pair.1)));
}

/// Enums that both versions have stand as the next version declares them.
proof fn lemma_updated_enums_applied(schema: KeyedSchema, pairs: Seq<(EnumView, EnumView)>)
    requires
        distinct_keys(pairs),
        forall|j: int|
            0 <= j < pairs.len() ==> valid_enum((#[trigger] pairs[j]).0) && valid_enum(pairs[j].1)
                && pairs[j].1.name == pairs[j].0.name && schema.enums.contains_key(pairs[j].0.name)
                && schema.enums[pairs[j].0.name] == keyed_enum(pairs[j].0),
    ensures
        apply_steps(schema, updated_enums_steps(pairs)) == with_enums(
            schema,
            schema.enums.union_prefer_right(keyed_by(pairs, next_enum())),
        ),
    decreases pairs.len(),
{
    if pairs.len() == 0 {
        assert(schema.enums.union_prefer_right(keyed_by(pairs, next_enum())) =~= schema.enums);
    } else {
        let rest = pairs.drop_last();
        let last = pairs.last();
        assert(pairs =~= rest.push(last));
        assert(distinct_keys(rest));
        assert forall|j: int| 0 <= j < rest.len() implies valid_enum((#[trigger] rest[j]).0)
            && valid_enum(rest[j].1) && rest[j].1.name == rest[j].0.name
            && schema.enums.contains_key(rest[j].0.name) && schema.enums[rest[j].0.name]
            == keyed_enum(rest[j].0) by {
            assert(rest[j] == pairs[j]);
        }
        lemma_updated_enums_applied(schema, rest);
        assert(!has_key(rest, last.key())) by {
            if has_key(rest, last.key()) {
                let i = choose|i: int| 0 <= i < rest.len() && (#[trigger] rest[i]).key() == last.key();
                assert(pairs[i].key() != pairs[pairs.len() - 1].key());
            }
        }
        lemma_keyed_push(rest, last, next_enum());
        let before = with_enums(schema, schema.enums.union_prefer_right(keyed_by(rest, next_enum())));
        lemma_apply_concat(schema, updated_enums_steps(rest), updated_enum_steps(last));
        assert(valid_enum(pairs[pairs.len() - 1].0));
        assert(before.enums[last.0.name] == schema.enums[last.0.name]);
        lemma_updated_enum_applied(before, last);
        assert(before.enums.insert(last.0.name, keyed_enum(last.1))
            =~= schema.enums.union_prefer_right(keyed_by(pairs, next_enum())));
    }
}

/// The steps on enums lead from the enums of the previous schema to those of the next.
pub proof fn lemma_enum_steps_applied(
    schema: KeyedSchema,
    previous: Seq<EnumView>,
    next: Seq<EnumView>,
)
    requires
        distinct_keys(previous),
        distinct_keys(next),
        forall|i: int| 0 <= i < previous.len() ==> valid_enum(#[trigger] previous[i]),
        forall|i: int| 0 <= i < next.len() ==> valid_enum(#[trigger] next[i]),
        schema.enums == keyed_by(previous, enum_by_name()),
    ensures
        apply_steps(schema, enum_steps(previous, next)) == with_enums(
            schema,
            keyed_by(next, enum_by_name()),
        ),
{
    let created = unmatched(next, previous);
    let pairs = matched(previous, next);
    let deleted = unmatched(previous, next);
    lemma_unmatched_keyed(next, previous);
    lemma_matched_keyed(previous, next);
    lemma_matched_members(previous, next);
    assert forall|pair: (EnumView, EnumView)| #[trigger] next_enum()(pair) == enum_by_name()(
        pair.1,
    ) by {}
    lemma_three_way(previous, next, enum_by_name(), next_enum());
    assert forall|i: int| 0 <= i < created.len() implies valid_enum(#[trigger] created[i]) by {
        let k = choose|k: int| 0 <= k < next.len() && next[k] == created[i];
        assert(valid_enum(next[k]));
    }
    lemma_created_enums_applied(schema, created);
    let after_created = with_enums(
        schema,
        schema.enums.union_prefer_right(keyed_by(created, enum_by_name())),
    );
    lemma_deleted_enums_applied(after_created, deleted);
    let after_deleted = with_enums(schema, after_created.enums.remove_keys(keys_of(deleted)));
    lemma_unmatched_keyed(previous, next);
    assert forall|j: int| 0 <= j < pairs.len() implies valid_enum((#[trigger] pairs[j]).0)
        && valid_enum(pairs[j].1) && pairs[j].1.name == pairs[j].0.name
        && after_deleted.enums.contains_key(pairs[j].0.name) && after_deleted.enums[pairs[j].0.name]
        == keyed_enum(pairs[j].0) by {
        let pair = pairs[j];
        let a = choose|i: int| 0 <= i < previous.len() && previous[i] == pair.0;
        let b = choose|i: int| 0 <= i < next.len() && next[i] == pair.1;
        assert(valid_enum(previous[a]) && valid_enum(next[b]));
        assert(pair.1.key() == pair.0.key());
        assert(has_key(next, pair.0.key()));
        assert(!has_key(deleted, pair.0.key()));
        assert(after_created.enums[pair.0.key()] == enum_by_name()(pair.0));
    }
    lemma_updated_enums_applied(after_deleted, pairs);
    lemma_apply_concat(schema, created_enums_steps(created), deleted_enums_steps(deleted));
    lemma_apply_concat(
        schema,
        created_enums_steps(created) + deleted_enums_steps(deleted),
        updated_enums_steps(pairs),
    );
    let result = after_deleted.enums.union_prefer_right(keyed_by(pairs, next_enum()));
    let reordered = after_created.enums.union_prefer_right(keyed_by(pairs, next_enum())).remove_keys(
        keys_of(deleted),
    );
    assert(result =~= reordered) by {
        assert forall|key: Seq<char>| has_key(pairs, key) implies !has_key(deleted, key) by {}
    }
}

} // verus!
