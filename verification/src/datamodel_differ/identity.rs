//! A well-formed schema does not differ from itself.

use crate::ast::{ArgumentView, DirectiveView, EnumView, FieldView, ModelView, SchemaView};
use crate::datamodel_differ::fields::without_default;
use crate::datamodel_differ::top_level::{enums_of, models_of};
use crate::datamodel_differ::{
    diff_steps,
    directive_steps,
    enum_steps,
    model_steps,
    updated_argument_steps,
    updated_directive_steps,
    updated_directives_steps,
    updated_enum_steps,
    updated_enums_steps,
    updated_field_steps,
    updated_fields_steps,
    updated_model_steps,
    updated_models_steps,
    value_names,
};
use crate::names::{has_key, is_first_with_key, lemma_first_index_unique, matched, unmatched, Keyed};
use crate::steps::{LocationView, LocatorView, StepView};
use crate::validity::{
    distinct_keys, valid_directives, valid_enum, valid_field, valid_model, valid_schema,
};
use vstd::prelude::*;

verus! {

/// Where every name of `items` occurs in `others`, nothing is unmatched.
proof fn lemma_unmatched_none<T: Keyed>(items: Seq<T>, others: Seq<T>)
    requires
        forall|i: int| 0 <= i < items.len() ==> has_key(others, (#[trigger] items[i]).key()),
    ensures
        unmatched(items, others) == Seq::<T>::empty(),
    decreases items.len(),
{
    if items.len() > 0 {
        assert(has_key(others, items[items.len() - 1].key()));
        lemma_unmatched_none(items.drop_last(), others);
    }
}

/// Against itself, a list has no unmatched item.
proof fn lemma_unmatched_self<T: Keyed>(items: Seq<T>)
    ensures
        unmatched(items, items) == Seq::<T>::empty(),
{
    assert forall|i: int| 0 <= i < items.len() implies has_key(
        items,
        (#[trigger] items[i]).key(),
    ) by {}
    lemma_unmatched_none(items, items);
}

/// Against itself, a list with distinct names pairs each item with itself.
proof fn lemma_matched_self<T: Keyed>(items: Seq<T>, n: int)
    requires
        distinct_keys(items),
        0 <= n <= items.len(),
    ensures
        matched(items.take(n), items).len() == n,
        forall|k: int|
            0 <= k < n ==> #[trigger] matched(items.take(n), items)[k] == (items[k], items[k]),
    decreases n,
{
    if n > 0 {
        lemma_matched_self(items, n - 1);
        assert(items.take(n).drop_last() =~= items.take(n - 1));
        let key = items[n - 1].key();
        assert(is_first_with_key(items, key, n - 1));
        lemma_first_index_unique(items, key, n - 1);
        assert(has_key(items, key));
    }
}

/// The pairs of a list with itself.
proof fn lemma_matched_whole<T: Keyed>(items: Seq<T>)
    requires
        distinct_keys(items),
    ensures
        matched(items, items).len() == items.len(),
        forall|k: int|
            0 <= k < items.len() ==> #[trigger] matched(items, items)[k] == (items[k], items[k]),
{
    lemma_matched_self(items, items.len() as int);
    assert(items.take(items.len() as int) =~= items);
}

proof fn lemma_same_arguments_no_steps(
    locator: LocatorView,
    pairs: Seq<(ArgumentView, ArgumentView)>,
)
    requires
        forall|k: int| 0 <= k < pairs.len() ==> (#[trigger] pairs[k]).0 == pairs[k].1,
    ensures
        updated_argument_steps(locator, pairs) == Seq::<StepView>::empty(),
    decreases pairs.len(),
{
    if pairs.len() > 0 {
        assert(pairs[pairs.len() - 1].0 == pairs[pairs.len() - 1].1);
        lemma_same_arguments_no_steps(locator, pairs.drop_last());
    }
}

proof fn lemma_same_directive_no_steps(location: LocationView, directive: DirectiveView)
    requires
        distinct_keys(directive.arguments),
    ensures
        updated_directive_steps(location, (directive, directive)) == Seq::<StepView>::empty(),
{
    let locator = LocatorView { location, name: directive.name };
    lemma_unmatched_self(directive.arguments);
    lemma_matched_whole(directive.arguments);
    lemma_same_arguments_no_steps(locator, matched(directive.arguments, directive.arguments));
}

proof fn lemma_same_directive_pairs_no_steps(
    location: LocationView,
    pairs: Seq<(DirectiveView, DirectiveView)>,
)
    requires
        forall|k: int|
            0 <= k < pairs.len() ==> (#[trigger] pairs[k]).0 == pairs[k].1 && distinct_keys(
                pairs[k].0.arguments,
            ),
    ensures
        updated_directives_steps(location, pairs) == Seq::<StepView>::empty(),
    decreases pairs.len(),
{
    if pairs.len() > 0 {
        let last = pairs[pairs.len() - 1];
        assert(last.0 == last.1);
        lemma_same_directive_no_steps(location, last.0);
        lemma_same_directive_pairs_no_steps(location, pairs.drop_last());
    }
}

/// Equal, well-formed directive lists give no step.
proof fn lemma_same_directives_no_steps(location: LocationView, directives: Seq<DirectiveView>)
    requires
        valid_directives(directives),
    ensures
        directive_steps(location, directives, directives) == Seq::<StepView>::empty(),
{
    lemma_unmatched_self(directives);
    lemma_matched_whole(directives);
    lemma_same_directive_pairs_no_steps(location, matched(directives, directives));
}

/// Leaving out the `default` directive keeps a directive list well formed.
pub proof fn lemma_without_default_valid(directives: Seq<DirectiveView>)
    requires
        valid_directives(directives),
    ensures
        valid_directives(without_default(directives)),
        forall|k: int|
            0 <= k < without_default(directives).len() ==> exists|i: int|
                0 <= i < directives.len() && directives[i] == #[trigger] without_default(
                    directives,
                )[k],
    decreases directives.len(),
{
    if directives.len() > 0 {
        let rest = directives.drop_last();
        let last = directives.last();
        lemma_without_default_valid(rest);
        let kept = without_default(directives);
        let kept_rest = without_default(rest);
        assert forall|k: int| 0 <= k < kept.len() implies exists|i: int|
            0 <= i < directives.len() && directives[i] == #[trigger] kept[k] by {
            if k < kept_rest.len() {
                let i = choose|i: int| 0 <= i < rest.len() && rest[i] == kept_rest[k];
                assert(directives[i] == kept[k]);
            } else {
                assert(directives[directives.len() - 1] == kept[k]);
            }
        }
        assert forall|a: int, b: int| 0 <= a < b < kept.len() implies (#[trigger] kept[a]).key() != (
        #[trigger] kept[b]).key() by {
            let i = choose|i: int| 0 <= i < rest.len() && rest[i] == kept_rest[a];
            if b < kept_rest.len() {
                assert(kept_rest[a].key() != kept_rest[b].key());
            } else {
                assert(directives[i].key() != directives[directives.len() - 1].key());
            }
        }
        assert forall|k: int| 0 <= k < kept.len() implies distinct_keys(
            (#[trigger] kept[k]).arguments,
        ) by {
            let i = choose|i: int| 0 <= i < directives.len() && directives[i] == kept[k];
            assert(distinct_keys(directives[i].arguments));
        }
    }
}

proof fn lemma_same_enum_pairs_no_steps(pairs: Seq<(EnumView, EnumView)>)
    requires
        forall|k: int|
            0 <= k < pairs.len() ==> (#[trigger] pairs[k]).0 == pairs[k].1 && valid_enum(
                pairs[k].0,
            ),
    ensures
        updated_enums_steps(pairs) == Seq::<StepView>::empty(),
    decreases pairs.len(),
{
    if pairs.len() > 0 {
        let last = pairs[pairs.len() - 1];
        assert(last.0 == last.1 && valid_enum(last.0));
        lemma_unmatched_self(last.0.values);
        assert(value_names(Seq::<crate::ast::EnumValueView>::empty()).len() == 0);
        lemma_same_directives_no_steps(
            LocationView::Enum { enum_name: last.0.name },
            last.0.directives,
        );
        assert(updated_enum_steps(last) =~= Seq::<StepView>::empty());
        lemma_same_enum_pairs_no_steps(pairs.drop_last());
    }
}

proof fn lemma_same_field_pairs_no_steps(model: Seq<char>, pairs: Seq<(FieldView, FieldView)>)
    requires
        forall|k: int|
            0 <= k < pairs.len() ==> (#[trigger] pairs[k]).0 == pairs[k].1 && valid_field(
                pairs[k].0,
            ),
    ensures
        updated_fields_steps(model, pairs) == Seq::<StepView>::empty(),
    decreases pairs.len(),
{
    if pairs.len() > 0 {
        let last = pairs[pairs.len() - 1];
        assert(last.0 == last.1 && valid_field(last.0));
        lemma_without_default_valid(last.0.directives);
        lemma_same_directives_no_steps(
            LocationView::Field { model, field: last.0.name },
            without_default(last.0.directives),
        );
        assert(updated_field_steps(model, last) =~= Seq::<StepView>::empty());
        lemma_same_field_pairs_no_steps(model, pairs.drop_last());
    }
}

proof fn lemma_same_model_pairs_no_steps(pairs: Seq<(ModelView, ModelView)>)
    requires
        forall|k: int|
            0 <= k < pairs.len() ==> (#[trigger] pairs[k]).0 == pairs[k].1 && valid_model(
                pairs[k].0,
            ),
    ensures
        updated_models_steps(pairs) == Seq::<StepView>::empty(),
    decreases pairs.len(),
{
    if pairs.len() > 0 {
        let last = pairs[pairs.len() - 1];
        let model = last.0;
        assert(last.0 == last.1 && valid_model(model));
        lemma_unmatched_self(model.fields);
        lemma_matched_whole(model.fields);
        lemma_same_field_pairs_no_steps(model.name, matched(model.fields, model.fields));
        lemma_same_directives_no_steps(LocationView::Model { model: model.name }, model.directives);
        assert(updated_model_steps(last) =~= Seq::<StepView>::empty());
        lemma_same_model_pairs_no_steps(pairs.drop_last());
    }
}

/// Diffing a well-formed schema against itself gives no step.
pub proof fn lemma_diff_of_same_schema_is_empty(schema: SchemaView)
    requires
        valid_schema(schema),
    ensures
        diff_steps(schema, schema) == Seq::<StepView>::empty(),
{
    let enums = enums_of(schema.tops);
    let models = models_of(schema.tops);
    lemma_unmatched_self(enums);
    lemma_matched_whole(enums);
    lemma_same_enum_pairs_no_steps(matched(enums, enums));
    lemma_unmatched_self(models);
    lemma_matched_whole(models);
    lemma_same_model_pairs_no_steps(matched(models, models));
    assert(enum_steps(enums, enums) =~= Seq::<StepView>::empty());
    assert(model_steps(models, models) =~= Seq::<StepView>::empty());
}

} // verus!
