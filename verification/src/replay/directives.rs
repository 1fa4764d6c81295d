//! Replaying the steps on the directives of one entity.

use crate::ast::{ArgumentView, DirectiveView};
use crate::datamodel_differ::{
    created_argument_step, created_argument_steps, created_directive_steps,
    created_directives_steps, deleted_argument_steps, deleted_directives_steps, directive_steps,
    updated_argument_step, updated_argument_steps, updated_directive_steps,
    updated_directives_steps,
};
use crate::keyed::{
    argument_value,
    directive_arguments,
    keyed_arguments,
    keyed_by,
    keyed_directives,
    keys_of,
    lemma_has_key_push,
    lemma_item_of_has_key,
    lemma_keyed_push,
    lemma_matched_keyed,
    lemma_unmatched_keyed,
    Arguments,
    Directives,
};
use crate::names::{has_key, matched, unmatched, Keyed};
use crate::replay::{
    apply_argument_step,
    apply_argument_steps,
    apply_directive_steps,
    argument_locator_of,
    lemma_apply_arguments_concat,
    lemma_apply_directives_concat,
    lemma_apply_directives_one,
};
use crate::steps::{LocationView, LocatorView, StepView};
use crate::validity::{distinct_keys, valid_directives};
use vstd::prelude::*;

verus! {

/// Every step is on an argument of the directive called `name`.
pub open spec fn all_arguments_of(steps: Seq<StepView>, name: Seq<char>) -> bool {
    forall|i: int|
        0 <= i < steps.len() ==> (argument_locator_of(#[trigger] steps[i]) matches Some(locator)
            && locator.name == name)
}

pub open spec fn next_argument_value() -> spec_fn((ArgumentView, ArgumentView)) -> Seq<char> {
    |pair: (ArgumentView, ArgumentView)| pair.1.value.rendered
}

pub open spec fn next_directive_arguments() -> spec_fn((DirectiveView, DirectiveView)) -> Arguments {
    |pair: (DirectiveView, DirectiveView)| keyed_arguments(pair.1.arguments)
}

proof fn lemma_created_arguments_of(locator: LocatorView, items: Seq<ArgumentView>)
    ensures
        all_arguments_of(created_argument_steps(locator, items), locator.name),
    decreases items.len(),
{
    if items.len() > 0 {
        lemma_created_arguments_of(locator, items.drop_last());
    }
}

proof fn lemma_updated_arguments_of(
    locator: LocatorView,
    pairs: Seq<(ArgumentView, ArgumentView)>,
)
    ensures
        all_arguments_of(updated_argument_steps(locator, pairs), locator.name),
    decreases pairs.len(),
{
    if pairs.len() > 0 {
        lemma_updated_arguments_of(locator, pairs.drop_last());
    }
}

proof fn lemma_deleted_arguments_of(locator: LocatorView, items: Seq<ArgumentView>)
    ensures
        all_arguments_of(deleted_argument_steps(locator, items), locator.name),
    decreases items.len(),
{
    if items.len() > 0 {
        lemma_deleted_arguments_of(locator, items.drop_last());
    }
}

/// Steps on the arguments of one directive change the arguments of that directive only.
proof fn lemma_apply_arguments_in(directives: Directives, name: Seq<char>, steps: Seq<StepView>)
    requires
        all_arguments_of(steps, name),
    ensures
        apply_directive_steps(directives, steps) == (if directives.contains_key(name) {
            directives.insert(name, apply_argument_steps(directives[name], steps))
        } else {
            directives
        }),
    decreases steps.len(),
{
    if steps.len() == 0 {
        if directives.contains_key(name) {
            assert(directives.insert(name, directives[name]) =~= directives);
        }
    } else {
        let rest = steps.drop_last();
        assert(all_arguments_of(rest, name)) by {
            assert forall|i: int| 0 <= i < rest.len() implies (argument_locator_of(
                #[trigger] rest[i],
            ) matches Some(locator) && locator.name == name) by {
                assert(rest[i] == steps[i]);
            }
        }
        lemma_apply_arguments_in(directives, name, rest);
        let last = steps[steps.len() - 1];
        assert(argument_locator_of(last) matches Some(locator) && locator.name == name);
        if directives.contains_key(name) {
            let before = apply_argument_steps(directives[name], rest);
            assert(directives.insert(name, before).insert(name, apply_argument_step(before, last))
                =~= directives.insert(name, apply_argument_step(before, last)));
        }
    }
}

/// Created arguments are added to the arguments that are there.
proof fn lemma_created_arguments_applied(
    arguments: Arguments,
    locator: LocatorView,
    items: Seq<ArgumentView>,
)
    requires
        distinct_keys(items),
    ensures
        apply_argument_steps(arguments, created_argument_steps(locator, items))
            == arguments.union_prefer_right(keyed_arguments(items)),
    decreases items.len(),
{
    if items.len() == 0 {
        assert(arguments.union_prefer_right(keyed_arguments(items)) =~= arguments);
    } else {
        let rest = items.drop_last();
        let last = items.last();
        assert(items =~= rest.push(last));
        assert(distinct_keys(rest));
        lemma_created_arguments_applied(arguments, locator, rest);
        assert(!has_key(rest, last.key())) by {
            if has_key(rest, last.key()) {
                let i = choose|i: int| 0 <= i < rest.len() && (#[trigger] rest[i]).key() == last.key();
                assert(items[i].key() != items[items.len() - 1].key());
            }
        }
        lemma_keyed_push(rest, last, argument_value());
        let steps = created_argument_steps(locator, items);
        assert(steps.drop_last() =~= created_argument_steps(locator, rest));
        assert(steps.last() == created_argument_step(locator, last));
        assert(arguments.union_prefer_right(keyed_arguments(rest)).insert(
            last.name,
            last.value.rendered,
        ) =~= arguments.union_prefer_right(keyed_arguments(items)));
    }
}

/// Deleted arguments are taken from the arguments that are there.
proof fn lemma_deleted_arguments_applied(
    arguments: Arguments,
    locator: LocatorView,
    items: Seq<ArgumentView>,
)
    ensures
        apply_argument_steps(arguments, deleted_argument_steps(locator, items))
            == arguments.remove_keys(keys_of(items)),
    decreases items.len(),
{
    if items.len() == 0 {
        assert(arguments.remove_keys(keys_of(items)) =~= arguments);
    } else {
        let rest = items.drop_last();
        let last = items.last();
        assert(items =~= rest.push(last));
        lemma_deleted_arguments_applied(arguments, locator, rest);
        let steps = deleted_argument_steps(locator, items);
        assert(steps.drop_last() =~= deleted_argument_steps(locator, rest));
        assert forall|key: Seq<char>|
            keys_of(items).contains(key) <==> keys_of(rest).contains(key) || key == last.name by {
            lemma_has_key_push(rest, last, key);
        }
        assert(arguments.remove_keys(keys_of(rest)).remove(last.name) =~= arguments.remove_keys(
            keys_of(items),
        ));
    }
}

/// Arguments that both versions have take the value of the next version.
proof fn lemma_updated_arguments_applied(
    arguments: Arguments,
    locator: LocatorView,
    pairs: Seq<(ArgumentView, ArgumentView)>,
)
    requires
        distinct_keys(pairs),
        forall|j: int|
            0 <= j < pairs.len() ==> (#[trigger] pairs[j]).1.name == pairs[j].0.name
                && arguments.contains_key(pairs[j].0.name) && arguments[pairs[j].0.name]
                == pairs[j].0.value.rendered,
    ensures
        apply_argument_steps(arguments, updated_argument_steps(locator, pairs))
            == arguments.union_prefer_right(keyed_by(pairs, next_argument_value())),
    decreases pairs.len(),
{
    if pairs.len() == 0 {
        assert(arguments.union_prefer_right(keyed_by(pairs, next_argument_value())) =~= arguments);
    } else {
        let rest = pairs.drop_last();
        let last = pairs.last();
        assert(pairs =~= rest.push(last));
        assert(distinct_keys(rest));
        assert forall|j: int| 0 <= j < rest.len() implies (#[trigger] rest[j]).1.name
            == rest[j].0.name && arguments.contains_key(rest[j].0.name)
            && arguments[rest[j].0.name] == rest[j].0.value.rendered by {
            assert(rest[j] == pairs[j]);
        }
        lemma_updated_arguments_applied(arguments, locator, rest);
        assert(!has_key(rest, last.key())) by {
            if has_key(rest, last.key()) {
                let i = choose|i: int| 0 <= i < rest.len() && (#[trigger] rest[i]).key() == last.key();
                assert(pairs[i].key() != pairs[pairs.len() - 1].key());
            }
        }
        lemma_keyed_push(rest, last, next_argument_value());
        let before = arguments.union_prefer_right(keyed_by(rest, next_argument_value()));
        lemma_apply_arguments_concat(
            arguments,
            updated_argument_steps(locator, rest),
            updated_argument_step(locator, last),
        );
        assert(pairs[pairs.len() - 1].1.name == last.0.name);
        assert(arguments[last.0.name] == last.0.value.rendered);
        assert(before[last.0.name] == last.0.value.rendered);
        if last.0.value.rendered == last.1.value.rendered {
            assert(apply_argument_steps(before, updated_argument_step(locator, last)) == before);
        } else {
            let step = updated_argument_step(locator, last)[0];
            assert(updated_argument_step(locator, last).drop_last() =~= Seq::<StepView>::empty());
            assert(updated_argument_step(locator, last).last() == step);
            assert(apply_argument_steps(before, Seq::<StepView>::empty()) == before);
        }
        assert(before.insert(last.0.name, last.1.value.rendered) =~= arguments.union_prefer_right(
            keyed_by(pairs, next_argument_value()),
        ));
        assert(apply_argument_steps(before, updated_argument_step(locator, last)) =~= before.insert(
            last.0.name,
            last.1.value.rendered,
        ));
    }
}

/// The steps on a directive that both versions have lead from the arguments of the
/// previous version to those of the next.
proof fn lemma_updated_directive_arguments(
    location: LocationView,
    pair: (DirectiveView, DirectiveView),
)
    requires
        distinct_keys(pair.0.arguments),
        distinct_keys(pair.1.arguments),
    ensures
        apply_argument_steps(
            keyed_arguments(pair.0.arguments),
            updated_directive_steps(location, pair),
        ) == keyed_arguments(pair.1.arguments),
{
    let previous = pair.0.arguments;
    let next = pair.1.arguments;
    let locator = LocatorView { location, name: pair.0.name };
    let created = unmatched(next, previous);
    let pairs = matched(previous, next);
    let deleted = unmatched(previous, next);
    lemma_unmatched_keyed(next, previous);
    lemma_matched_keyed(previous, next);
    lemma_unmatched_keyed(previous, next);
    let start = keyed_arguments(previous);
    let after_created = start.union_prefer_right(keyed_arguments(created));
    let after_updated = after_created.union_prefer_right(keyed_by(pairs, next_argument_value()));
    let after_deleted = after_updated.remove_keys(keys_of(deleted));
    lemma_created_arguments_applied(start, locator, created);
    assert forall|j: int| 0 <= j < pairs.len() implies (#[trigger] pairs[j]).1.name
        == pairs[j].0.name && after_created.contains_key(pairs[j].0.name)
        && after_created[pairs[j].0.name] == pairs[j].0.value.rendered by {
        let key = pairs[j].0.key();
        lemma_item_of_has_key(next, key);
        lemma_item_of_has_key(previous, key);
    }
    lemma_updated_arguments_applied(after_created, locator, pairs);
    lemma_deleted_arguments_applied(after_updated, locator, deleted);
    lemma_apply_arguments_concat(
        start,
        created_argument_steps(locator, created),
        updated_argument_steps(locator, pairs),
    );
    lemma_apply_arguments_concat(
        start,
        created_argument_steps(locator, created) + updated_argument_steps(locator, pairs),
        deleted_argument_steps(locator, deleted),
    );
    let target = keyed_arguments(next);
    assert forall|key: Seq<char>| after_deleted.contains_key(key) <==> target.contains_key(
        key,
    ) by {}
    assert forall|key: Seq<char>| target.contains_key(key) implies after_deleted[key]
        == target[key] by {
        if has_key(previous, key) {
            assert(has_key(pairs, key));
        } else {
            assert(has_key(created, key));
        }
    }
    assert(after_deleted =~= target);
}

/// A created directive stands with the arguments it was declared with.
proof fn lemma_created_directive_applied(
    directives: Directives,
    location: LocationView,
    directive: DirectiveView,
)
    requires
        distinct_keys(directive.arguments),
    ensures
        apply_directive_steps(directives, created_directive_steps(location, directive))
            == directives.insert(directive.name, keyed_arguments(directive.arguments)),
{
    let locator = LocatorView { location, name: directive.name };
    let create = seq![StepView::CreateDirective { locator }];
    let fill = created_argument_steps(locator, directive.arguments);
    lemma_apply_directives_concat(directives, create, fill);
    lemma_apply_directives_one(directives, StepView::CreateDirective { locator });
    let created = directives.insert(directive.name, Map::empty());
    lemma_created_arguments_of(locator, directive.arguments);
    lemma_apply_arguments_in(created, directive.name, fill);
    lemma_created_arguments_applied(Map::empty(), locator, directive.arguments);
    assert(Map::<Seq<char>, Seq<char>>::empty().union_prefer_right(
        keyed_arguments(directive.arguments),
    ) =~= keyed_arguments(directive.arguments));
    assert(created.insert(directive.name, keyed_arguments(directive.arguments))
        =~= directives.insert(directive.name, keyed_arguments(directive.arguments)));
}

/// Created directives are added to the directives that are there.
pub proof fn lemma_created_directives_applied(
    directives: Directives,
    location: LocationView,
    items: Seq<DirectiveView>,
)
    requires
        valid_directives(items),
    ensures
        apply_directive_steps(directives, created_directives_steps(location, items))
            == directives.union_prefer_right(keyed_directives(items)),
    decreases items.len(),
{
    if items.len() == 0 {
        assert(directives.union_prefer_right(keyed_directives(items)) =~= directives);
    } else {
        let rest = items.drop_last();
        let last = items.last();
        assert(items =~= rest.push(last));
        assert(valid_directives(rest)) by {
            assert forall|i: int| 0 <= i < rest.len() implies distinct_keys(
                (#[trigger] rest[i]).arguments,
            ) by {
                assert(rest[i] == items[i]);
            }
        }
        lemma_created_directives_applied(directives, location, rest);
        assert(!has_key(rest, last.key())) by {
            if has_key(rest, last.key()) {
                let i = choose|i: int| 0 <= i < rest.len() && (#[trigger] rest[i]).key() == last.key();
                assert(items[i].key() != items[items.len() - 1].key());
            }
        }
        lemma_keyed_push(rest, last, directive_arguments());
        let before = directives.union_prefer_right(keyed_directives(rest));
        lemma_apply_directives_concat(
            directives,
            created_directives_steps(location, rest),
            created_directive_steps(location, last),
        );
        assert(distinct_keys(items[items.len() - 1].arguments));
        lemma_created_directive_applied(before, location, last);
        assert(before.insert(last.name, keyed_arguments(last.arguments))
            =~= directives.union_prefer_right(keyed_directives(items)));
    }
}

/// Deleted directives are taken from the directives that are there.
proof fn lemma_deleted_directives_applied(
    directives: Directives,
    location: LocationView,
    items: Seq<DirectiveView>,
)
    ensures
        apply_directive_steps(directives, deleted_directives_steps(location, items))
            == directives.remove_keys(keys_of(items)),
    decreases items.len(),
{
    if items.len() == 0 {
        assert(directives.remove_keys(keys_of(items)) =~= directives);
    } else {
        let rest = items.drop_last();
        let last = items.last();
        assert(items =~= rest.push(last));
        lemma_deleted_directives_applied(directives, location, rest);
        let steps = deleted_directives_steps(location, items);
        assert(steps.drop_last() =~= deleted_directives_steps(location, rest));
        assert forall|key: Seq<char>|
            keys_of(items).contains(key) <==> keys_of(rest).contains(key) || key == last.name by {
            lemma_has_key_push(rest, last, key);
        }
        assert(directives.remove_keys(keys_of(rest)).remove(last.name) =~= directives.remove_keys(
            keys_of(items),
        ));
    }
}

/// The steps on a directive that both versions have leave it with the arguments of the
/// next version.
proof fn lemma_updated_directive_applied(
    directives: Directives,
    location: LocationView,
    pair: (DirectiveView, DirectiveView),
)
    requires
        distinct_keys(pair.0.arguments),
        distinct_keys(pair.1.arguments),
        directives.contains_key(pair.0.name),
        directives[pair.0.name] == keyed_arguments(pair.0.arguments),
    ensures
        apply_directive_steps(directives, updated_directive_steps(location, pair))
            == directives.insert(pair.0.name, keyed_arguments(pair.1.arguments)),
{
    let locator = LocatorView { location, name: pair.0.name };
    lemma_created_arguments_of(locator, unmatched(pair.1.arguments, pair.0.arguments));
    lemma_updated_arguments_of(locator, matched(pair.0.arguments, pair.1.arguments));
    lemma_deleted_arguments_of(locator, unmatched(pair.0.arguments, pair.1.arguments));
    lemma_apply_arguments_in(directives, pair.0.name, updated_directive_steps(location, pair));
    lemma_updated_directive_arguments(location, pair);
}

/// Directives that both versions have take the arguments of the next version.
proof fn lemma_updated_directives_applied(
    directives: Directives,
    location: LocationView,
    pairs: Seq<(DirectiveView, DirectiveView)>,
)
    requires
        distinct_keys(pairs),
        forall|j: int|
            0 <= j < pairs.len() ==> distinct_keys((#[trigger] pairs[j]).0.arguments)
                && distinct_keys(pairs[j].1.arguments) && directives.contains_key(pairs[j].0.name)
                && directives[pairs[j].0.name] == keyed_arguments(pairs[j].0.arguments),
    ensures
        apply_directive_steps(directives, updated_directives_steps(location, pairs))
            == directives.union_prefer_right(keyed_by(pairs, next_directive_arguments())),
    decreases pairs.len(),
{
    if pairs.len() == 0 {
        assert(directives.union_prefer_right(keyed_by(pairs, next_directive_arguments()))
            =~= directives);
    } else {
        let rest = pairs.drop_last();
        let last = pairs.last();
        assert(pairs =~= rest.push(last));
        assert(distinct_keys(rest));
        assert forall|j: int| 0 <= j < rest.len() implies distinct_keys(
            (#[trigger] rest[j]).0.arguments,
        ) && distinct_keys(rest[j].1.arguments) && directives.contains_key(rest[j].0.name)
            && directives[rest[j].0.name] == keyed_arguments(rest[j].0.arguments) by {
            assert(rest[j] == pairs[j]);
        }
        lemma_updated_directives_applied(directives, location, rest);
        assert(!has_key(rest, last.key())) by {
            if has_key(rest, last.key()) {
                let i = choose|i: int| 0 <= i < rest.len() && (#[trigger] rest[i]).key() == last.key();
                assert(pairs[i].key() != pairs[pairs.len() - 1].key());
            }
        }
        lemma_keyed_push(rest, last, next_directive_arguments());
        let before = directives.union_prefer_right(keyed_by(rest, next_directive_arguments()));
        lemma_apply_directives_concat(
            directives,
            updated_directives_steps(location, rest),
            updated_directive_steps(location, last),
        );
        assert(distinct_keys(pairs[pairs.len() - 1].0.arguments));
        assert(before[last.0.name] == directives[last.0.name]);
        lemma_updated_directive_applied(before, location, last);
        assert(before.insert(last.0.name, keyed_arguments(last.1.arguments))
            =~= directives.union_prefer_right(keyed_by(pairs, next_directive_arguments())));
    }
}

/// The steps on the directives of an entity lead from its previous directives to its next
/// ones.
pub proof fn lemma_directive_steps_applied(
    location: LocationView,
    previous: Seq<DirectiveView>,
    next: Seq<DirectiveView>,
)
    requires
        valid_directives(previous),
        valid_directives(next),
    ensures
        apply_directive_steps(keyed_directives(previous), directive_steps(location, previous, next))
            == keyed_directives(next),
{
    let created = unmatched(next, previous);
    let pairs = matched(previous, next);
    let deleted = unmatched(previous, next);
    lemma_unmatched_keyed(next, previous);
    lemma_matched_keyed(previous, next);
    lemma_unmatched_keyed(previous, next);
    let start = keyed_directives(previous);
    let after_created = start.union_prefer_right(keyed_directives(created));
    let after_updated = after_created.union_prefer_right(
        keyed_by(pairs, next_directive_arguments()),
    );
    let after_deleted = after_updated.remove_keys(keys_of(deleted));
    assert(valid_directives(created)) by {
        assert forall|j: int| 0 <= j < created.len() implies distinct_keys(
            (#[trigger] created[j]).arguments,
        ) by {
            let i = choose|i: int| 0 <= i < next.len() && next[i] == created[j];
            assert(distinct_keys(next[i].arguments));
        }
    }
    lemma_created_directives_applied(start, location, created);
    assert forall|j: int| 0 <= j < pairs.len() implies distinct_keys(
        (#[trigger] pairs[j]).0.arguments,
    ) && distinct_keys(pairs[j].1.arguments) && after_created.contains_key(pairs[j].0.name)
        && after_created[pairs[j].0.name] == keyed_arguments(pairs[j].0.arguments) by {
        let key = pairs[j].0.key();
        lemma_item_of_has_key(next, key);
        lemma_item_of_has_key(previous, key);
        assert(distinct_keys(previous[crate::names::first_index(previous, key)].arguments));
        assert(distinct_keys(next[crate::names::first_index(next, key)].arguments));
    }
    lemma_updated_directives_applied(after_created, location, pairs);
    lemma_deleted_directives_applied(after_updated, location, deleted);
    lemma_apply_directives_concat(
        start,
        created_directives_steps(location, created),
        updated_directives_steps(location, pairs),
    );
    lemma_apply_directives_concat(
        start,
        created_directives_steps(location, created) + updated_directives_steps(location, pairs),
        deleted_directives_steps(location, deleted),
    );
    let target = keyed_directives(next);
    assert forall|key: Seq<char>| after_deleted.contains_key(key) <==> target.contains_key(
        key,
    ) by {}
    assert forall|key: Seq<char>| target.contains_key(key) implies after_deleted[key]
        == target[key] by {
        if has_key(previous, key) {
            assert(has_key(pairs, key));
        } else {
            assert(has_key(created, key));
        }
    }
    assert(after_deleted =~= target);
}

} // verus!
