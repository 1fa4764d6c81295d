//! A schema by names: what a schema is once the order of its declarations is put aside.
//! Two schemas with the same keyed form are structurally equal.

use crate::ast::{
    ArgumentView,
    DirectiveView,
    EnumView,
    FieldArity,
    FieldView,
    ModelView,
    SchemaView,
};
use crate::datamodel_differ::fields::{default_value_of, without_default};
use crate::datamodel_differ::top_level::{enums_of, models_of};
use crate::names::{
    first_index, has_key, is_first_with_key, lemma_first_index_unique, matched, unmatched, Keyed,
};
use crate::validity::distinct_keys;
use vstd::prelude::*;

verus! {

/// The rendered values of the arguments of a directive, by argument name.
pub type Arguments = Map<Seq<char>, Seq<char>>;

/// The arguments of the directives of an entity, by directive name.
pub type Directives = Map<Seq<char>, Arguments>;

#[verifier::ext_equal]
pub struct KeyedEnum {
    pub values: Set<Seq<char>>,
    pub directives: Directives,
}

/// A field by names. Its default value is the first argument of its `default` directive;
/// that directive is not among its directives.
#[verifier::ext_equal]
pub struct KeyedField {
    pub tpe: Seq<char>,
    pub arity: FieldArity,
    pub default: Option<Seq<char>>,
    pub directives: Directives,
}

#[verifier::ext_equal]
pub struct KeyedModel {
    pub fields: Map<Seq<char>, KeyedField>,
    pub directives: Directives,
}

#[verifier::ext_equal]
pub struct KeyedSchema {
    pub enums: Map<Seq<char>, KeyedEnum>,
    pub models: Map<Seq<char>, KeyedModel>,
}

/// A pair of items is known by the name of its first item.
impl<T: Keyed> Keyed for (T, T) {
    open spec fn key(&self) -> Seq<char> {
        self.0.key()
    }
}

/// The first item with the name `key`.
pub open spec fn item_of<T: Keyed>(items: Seq<T>, key: Seq<char>) -> T {
    items[first_index(items, key)]
}

/// For each name among `items`, the value of the first item with that name.
pub open spec fn keyed_by<T: Keyed, V>(items: Seq<T>, value: spec_fn(T) -> V) -> Map<Seq<char>, V> {
    Map::new(|key: Seq<char>| has_key(items, key), |key: Seq<char>| value(item_of(items, key)))
}

/// The names of `items`.
pub open spec fn keys_of<T: Keyed>(items: Seq<T>) -> Set<Seq<char>> {
    Set::new(|key: Seq<char>| has_key(items, key))
}

pub open spec fn argument_value() -> spec_fn(ArgumentView) -> Seq<char> {
    |argument: ArgumentView| argument.value.rendered
}

pub open spec fn keyed_arguments(arguments: Seq<ArgumentView>) -> Arguments {
    keyed_by(arguments, argument_value())
}

pub open spec fn directive_arguments() -> spec_fn(DirectiveView) -> Arguments {
    |directive: DirectiveView| keyed_arguments(directive.arguments)
}

pub open spec fn keyed_directives(directives: Seq<DirectiveView>) -> Directives {
    keyed_by(directives, directive_arguments())
}

pub open spec fn keyed_enum(e: EnumView) -> KeyedEnum {
    KeyedEnum { values: keys_of(e.values), directives: keyed_directives(e.directives) }
}

pub open spec fn keyed_field(field: FieldView) -> KeyedField {
    KeyedField {
        tpe: field.field_type,
        arity: field.arity,
        default: default_value_of(field.directives),
        directives: keyed_directives(without_default(field.directives)),
    }
}

pub open spec fn field_by_name() -> spec_fn(FieldView) -> KeyedField {
    |field: FieldView| keyed_field(field)
}

pub open spec fn keyed_model(model: ModelView) -> KeyedModel {
    KeyedModel {
        fields: keyed_by(model.fields, field_by_name()),
        directives: keyed_directives(model.directives),
    }
}

pub open spec fn enum_by_name() -> spec_fn(EnumView) -> KeyedEnum {
    |e: EnumView| keyed_enum(e)
}

pub open spec fn model_by_name() -> spec_fn(ModelView) -> KeyedModel {
    |model: ModelView| keyed_model(model)
}

/// The keyed form of a schema.
pub open spec fn keyed_schema(schema: SchemaView) -> KeyedSchema {
    KeyedSchema {
        enums: keyed_by(enums_of(schema.tops), enum_by_name()),
        models: keyed_by(models_of(schema.tops), model_by_name()),
    }
}

/// Among distinct names, an item is the first with its name.
proof fn lemma_item_at<T: Keyed>(items: Seq<T>, i: int)
    requires
        distinct_keys(items),
        0 <= i < items.len(),
    ensures
        has_key(items, items[i].key()),
        item_of(items, items[i].key()) == items[i],
        first_index(items, items[i].key()) == i,
{
    assert(is_first_with_key(items, items[i].key(), i));
    lemma_first_index_unique(items, items[i].key(), i);
}

/// The first item with a name that occurs has that name.
pub proof fn lemma_item_of_has_key<T: Keyed>(items: Seq<T>, key: Seq<char>)
    requires
        has_key(items, key),
    ensures
        0 <= first_index(items, key) < items.len(),
        item_of(items, key).key() == key,
        is_first_with_key(items, key, first_index(items, key)),
{
    let i = choose|i: int| 0 <= i < items.len() && (#[trigger] items[i]).key() == key;
    lemma_some_first(items, key, i);
}

/// Where some item up to `i` has the name `key`, there is a first one.
proof fn lemma_some_first<T: Keyed>(items: Seq<T>, key: Seq<char>, i: int)
    requires
        0 <= i < items.len(),
        items[i].key() == key,
    ensures
        is_first_with_key(items, key, first_index(items, key)),
    decreases i,
{
    if forall|j: int| 0 <= j < i ==> (#[trigger] items[j]).key() != key {
        assert(is_first_with_key(items, key, i));
    } else {
        let j = choose|j: int| 0 <= j < i && (#[trigger] items[j]).key() == key;
        lemma_some_first(items, key, j);
    }
}

/// The names of a list with one more item.
pub proof fn lemma_has_key_push<T: Keyed>(items: Seq<T>, item: T, key: Seq<char>)
    ensures
        has_key(items.push(item), key) <==> has_key(items, key) || item.key() == key,
{
    let longer = items.push(item);
    if has_key(items, key) {
        let i = choose|i: int| 0 <= i < items.len() && (#[trigger] items[i]).key() == key;
        assert(longer[i].key() == key);
    }
    if item.key() == key {
        assert(longer[items.len() as int].key() == key);
    }
    if has_key(longer, key) {
        let i = choose|i: int| 0 <= i < longer.len() && (#[trigger] longer[i]).key() == key;
        if i < items.len() {
            assert(items[i].key() == key);
        }
    }
}

/// Adding an item with a new name adds one entry to the keyed form.
pub proof fn lemma_keyed_push<T: Keyed, V>(items: Seq<T>, item: T, value: spec_fn(T) -> V)
    requires
        !has_key(items, item.key()),
    ensures
        keyed_by(items.push(item), value) == keyed_by(items, value).insert(
            item.key(),
            value(item),
        ),
{
    let longer = items.push(item);
    let left = keyed_by(longer, value);
    let right = keyed_by(items, value).insert(item.key(), value(item));
    assert forall|key: Seq<char>| left.contains_key(key) <==> right.contains_key(key) by {
        lemma_has_key_push(items, item, key);
    }
    assert forall|key: Seq<char>| left.contains_key(key) implies left[key] == right[key] by {
        lemma_has_key_push(items, item, key);
        if key == item.key() {
            assert(is_first_with_key(longer, key, items.len() as int)) by {
                assert forall|j: int| 0 <= j < items.len() implies (#[trigger] longer[j]).key()
                    != key by {
                    assert(items[j].key() != key);
                }
            }
            lemma_first_index_unique(longer, key, items.len() as int);
        } else {
            lemma_item_of_has_key(items, key);
            let i = first_index(items, key);
            assert(is_first_with_key(longer, key, i)) by {
                assert forall|j: int| 0 <= j < i implies (#[trigger] longer[j]).key() != key by {
                    assert(items[j].key() != key);
                }
            }
            lemma_first_index_unique(longer, key, i);
        }
    }
    assert(left =~= right);
}

/// Adding an item whose name is there already leaves the keyed form as it is.
pub proof fn lemma_keyed_push_present<T: Keyed, V>(items: Seq<T>, item: T, value: spec_fn(T) -> V)
    requires
        has_key(items, item.key()),
    ensures
        keyed_by(items.push(item), value) == keyed_by(items, value),
{
    let longer = items.push(item);
    let left = keyed_by(longer, value);
    let right = keyed_by(items, value);
    assert forall|key: Seq<char>| left.contains_key(key) <==> right.contains_key(key) by {
        lemma_has_key_push(items, item, key);
    }
    assert forall|key: Seq<char>| left.contains_key(key) implies left[key] == right[key] by {
        lemma_has_key_push(items, item, key);
        lemma_item_of_has_key(items, key);
        let i = first_index(items, key);
        assert(is_first_with_key(longer, key, i)) by {
            assert forall|j: int| 0 <= j < i implies (#[trigger] longer[j]).key() != key by {
                assert(items[j].key() != key);
            }
        }
        lemma_first_index_unique(longer, key, i);
    }
    assert(left =~= right);
}

/// The names of a list with one more item.
pub proof fn lemma_keys_push<T: Keyed>(items: Seq<T>, item: T)
    ensures
        keys_of(items.push(item)) == keys_of(items).insert(item.key()),
{
    assert forall|key: Seq<char>| keys_of(items.push(item)).contains(key) <==> keys_of(
        items,
    ).insert(item.key()).contains(key) by {
        lemma_has_key_push(items, item, key);
    }
    assert(keys_of(items.push(item)) =~= keys_of(items).insert(item.key()));
}

/// What stays unmatched: the items whose names `others` lacks, each as it stands in `items`.
pub proof fn lemma_unmatched_keyed<T: Keyed>(items: Seq<T>, others: Seq<T>)
    requires
        distinct_keys(items),
    ensures
        distinct_keys(unmatched(items, others)),
        forall|key: Seq<char>|
            has_key(unmatched(items, others), key) <==> has_key(items, key) && !has_key(
                others,
                key,
            ),
        forall|key: Seq<char>|
            has_key(unmatched(items, others), key) ==> item_of(unmatched(items, others), key)
                == item_of(items, key),
        forall|j: int|
            0 <= j < unmatched(items, others).len() ==> exists|i: int|
                0 <= i < items.len() && items[i] == #[trigger] unmatched(items, others)[j],
    decreases items.len(),
{
    let kept = unmatched(items, others);
    if items.len() > 0 {
        let rest = items.drop_last();
        let last = items.last();
        let kept_rest = unmatched(rest, others);
        lemma_unmatched_keyed(rest, others);
        assert(items =~= rest.push(last));
        assert(!has_key(rest, last.key())) by {
            if has_key(rest, last.key()) {
                let i = choose|i: int| 0 <= i < rest.len() && (#[trigger] rest[i]).key() == last.key();
                assert(items[i].key() != items[items.len() - 1].key());
            }
        }
        assert forall|j: int| 0 <= j < kept.len() implies exists|i: int|
            0 <= i < items.len() && items[i] == #[trigger] kept[j] by {
            if j < kept_rest.len() {
                let i = choose|i: int| 0 <= i < rest.len() && rest[i] == kept_rest[j];
                assert(items[i] == kept[j]);
            } else {
                assert(items[items.len() - 1] == kept[j]);
            }
        }
        assert forall|a: int, b: int| 0 <= a < b < kept.len() implies (#[trigger] kept[a]).key() != (
        #[trigger] kept[b]).key() by {
            if b < kept_rest.len() {
                assert(kept_rest[a].key() != kept_rest[b].key());
            } else {
                assert(kept_rest[a].key() == kept[a].key());
                assert(has_key(kept_rest, kept[a].key()));
            }
        }
        assert forall|key: Seq<char>|
            has_key(kept, key) <==> has_key(items, key) && !has_key(others, key) by {
            lemma_has_key_push(rest, last, key);
            if !has_key(others, last.key()) {
                lemma_has_key_push(kept_rest, last, key);
            }
        }
        assert forall|key: Seq<char>| has_key(kept, key) implies item_of(kept, key) == item_of(
            items,
            key,
        ) by {
            lemma_item_of_has_key(kept, key);
            let j = first_index(kept, key);
            let i = choose|i: int| 0 <= i < items.len() && items[i] == kept[j];
            lemma_item_at(items, i);
        }
    }
}

/// What is matched: the items whose names `others` has, each with the first item of
/// `others` of its name.
pub proof fn lemma_matched_keyed<T: Keyed>(items: Seq<T>, others: Seq<T>)
    requires
        distinct_keys(items),
    ensures
        distinct_keys(matched(items, others)),
        forall|key: Seq<char>|
            has_key(matched(items, others), key) <==> has_key(items, key) && has_key(others, key),
        forall|key: Seq<char>|
            has_key(matched(items, others), key) ==> item_of(matched(items, others), key) == (
                item_of(items, key),
                item_of(others, key),
            ),
        forall|j: int|
            0 <= j < matched(items, others).len() ==> has_key(
                others,
                (#[trigger] matched(items, others)[j]).0.key(),
            ) && has_key(items, matched(items, others)[j].0.key()) && matched(items, others)[j] == (
                item_of(items, matched(items, others)[j].0.key()),
                item_of(others, matched(items, others)[j].0.key()),
            ),
    decreases items.len(),
{
    let pairs = matched(items, others);
    if items.len() > 0 {
        let rest = items.drop_last();
        let last = items.last();
        let pairs_rest = matched(rest, others);
        lemma_matched_keyed(rest, others);
        assert(items =~= rest.push(last));
        lemma_item_at(items, items.len() - 1);
        assert(!has_key(rest, last.key())) by {
            if has_key(rest, last.key()) {
                let i = choose|i: int| 0 <= i < rest.len() && (#[trigger] rest[i]).key() == last.key();
                assert(items[i].key() != items[items.len() - 1].key());
            }
        }
        assert forall|j: int| 0 <= j < pairs.len() implies has_key(
            others,
            (#[trigger] pairs[j]).0.key(),
        ) && has_key(items, pairs[j].0.key()) && pairs[j] == (
            item_of(items, pairs[j].0.key()),
            item_of(others, pairs[j].0.key()),
        ) by {
            if j < pairs_rest.len() {
                let key = pairs_rest[j].0.key();
                assert(pairs[j] == pairs_rest[j]);
                lemma_has_key_push(rest, last, key);
                lemma_item_of_has_key(rest, key);
                let i = first_index(rest, key);
                assert(items[i] == rest[i]);
                lemma_item_at(items, i);
            } else {
            }
        }
        assert forall|a: int, b: int| 0 <= a < b < pairs.len() implies (#[trigger] pairs[a]).key() != (
        #[trigger] pairs[b]).key() by {
            if b < pairs_rest.len() {
                assert(pairs_rest[a].key() != pairs_rest[b].key());
            } else {
                assert(pairs_rest[a] == pairs[a]);
                assert(has_key(rest, pairs_rest[a].0.key()));
            }
        }
        assert forall|key: Seq<char>|
            has_key(pairs, key) <==> has_key(items, key) && has_key(others, key) by {
            lemma_has_key_push(rest, last, key);
            if has_key(others, last.key()) {
                lemma_has_key_push(
                    pairs_rest,
                    (last, others[first_index(others, last.key())]),
                    key,
                );
            }
        }
        assert forall|key: Seq<char>| has_key(pairs, key) implies item_of(pairs, key) == (
            item_of(items, key),
            item_of(others, key),
        ) by {
            lemma_item_of_has_key(pairs, key);
        }
    }
}

/// Every pair of matched items has one name, and each of its items stands in its list.
pub proof fn lemma_matched_members<T: Keyed>(items: Seq<T>, others: Seq<T>)
    requires
        distinct_keys(items),
    ensures
        forall|j: int|
            0 <= j < matched(items, others).len() ==> {
                let pair = #[trigger] matched(items, others)[j];
                &&& pair.1.key() == pair.0.key()
                &&& exists|i: int| 0 <= i < items.len() && items[i] == pair.0
                &&& exists|i: int| 0 <= i < others.len() && others[i] == pair.1
            },
{
    lemma_matched_keyed(items, others);
    assert forall|j: int| 0 <= j < matched(items, others).len() implies {
        let pair = #[trigger] matched(items, others)[j];
        &&& pair.1.key() == pair.0.key()
        &&& exists|i: int| 0 <= i < items.len() && items[i] == pair.0
        &&& exists|i: int| 0 <= i < others.len() && others[i] == pair.1
    } by {
        let pair = matched(items, others)[j];
        let key = pair.0.key();
        lemma_item_of_has_key(items, key);
        lemma_item_of_has_key(others, key);
        assert(items[first_index(items, key)] == pair.0);
        assert(others[first_index(others, key)] == pair.1);
    }
}

/// Adding what was created, replacing what both versions have and removing what was deleted
/// leads from the keyed form of the previous list to that of the next.
pub proof fn lemma_three_way<T: Keyed, V>(
    previous: Seq<T>,
    next: Seq<T>,
    value: spec_fn(T) -> V,
    next_value: spec_fn((T, T)) -> V,
)
    requires
        distinct_keys(previous),
        distinct_keys(next),
        forall|pair: (T, T)| #[trigger] next_value(pair) == value(pair.1),
    ensures
        keyed_by(previous, value).union_prefer_right(
            keyed_by(unmatched(next, previous), value),
        ).union_prefer_right(keyed_by(matched(previous, next), next_value)).remove_keys(
            keys_of(unmatched(previous, next)),
        ) == keyed_by(next, value),
        forall|j: int|
            0 <= j < matched(previous, next).len() ==> {
                let pair = #[trigger] matched(previous, next)[j];
                let created = keyed_by(previous, value).union_prefer_right(
                    keyed_by(unmatched(next, previous), value),
                );
                created.contains_key(pair.0.key()) && created[pair.0.key()] == value(pair.0)
            },
{
    let created = unmatched(next, previous);
    let pairs = matched(previous, next);
    let deleted = unmatched(previous, next);
    lemma_unmatched_keyed(next, previous);
    lemma_matched_keyed(previous, next);
    lemma_unmatched_keyed(previous, next);
    let after_created = keyed_by(previous, value).union_prefer_right(keyed_by(created, value));
    let result = after_created.union_prefer_right(keyed_by(pairs, next_value)).remove_keys(
        keys_of(deleted),
    );
    let target = keyed_by(next, value);
    assert forall|key: Seq<char>| result.contains_key(key) <==> target.contains_key(key) by {}
    assert forall|key: Seq<char>| target.contains_key(key) implies result[key] == target[key] by {
        if has_key(previous, key) {
            assert(has_key(pairs, key));
            assert(next_value(item_of(pairs, key)) == value(item_of(pairs, key).1));
        } else {
            assert(has_key(created, key));
        }
    }
    assert(result =~= target);
    assert forall|j: int| 0 <= j < pairs.len() implies {
        let pair = #[trigger] pairs[j];
        after_created.contains_key(pair.0.key()) && after_created[pair.0.key()] == value(pair.0)
    } by {
        let key = pairs[j].0.key();
        assert(!has_key(created, key));
    }
}

} // verus!
