//! One field in two versions of a schema. A field's default value travels in the steps of the
//! field itself, so its `default` directive is left out of the directives compared here.

use crate::ast::{Directive, DirectiveView, Field};
use crate::datamodel_differ::directives::{first_argument, first_argument_of};
use crate::names::{matched, matched_items, unmatched, unmatched_items, views_of, Paired};
use crate::steps::MigrationExpression;
use vstd::prelude::*;
use vstd::string::StringExecFns;

verus! {

/// A field that both versions have.
pub type FieldDiffer<'a> = Paired<'a, Field>;

/// The name of the directive that holds a field's default value.
pub open spec fn default_directive_name() -> Seq<char> {
    "default"@
}

/// The directives other than `default`, in order.
pub open spec fn without_default(directives: Seq<DirectiveView>) -> Seq<DirectiveView>
    decreases directives.len(),
{
    if directives.len() == 0 {
        Seq::empty()
    } else if directives.last().name == default_directive_name() {
        without_default(directives.drop_last())
    } else {
        without_default(directives.drop_last()).push(directives.last())
    }
}

/// The rendered first argument of the first `default` directive.
pub open spec fn default_value_of(directives: Seq<DirectiveView>) -> Option<Seq<char>> {
    match first_argument_of(default_directive_name(), directives) {
        Some(argument) => Some(argument.value.rendered),
        None => None,
    }
}

/// The default value that a field's directives declare.
pub fn default_value(field: &Field) -> (default: Option<MigrationExpression>)
    ensures
        default.deep_view() == default_value_of(field.deep_view().directives),
{
    let name = String::from_str("default");
    match first_argument(&name, &field.directives) {
        Some(argument) => Some(MigrationExpression::from_ast_expression(&argument.value)),
        None => None,
    }
}

/// The directives of a field other than `default`.
pub fn plain_directives<'a>(field: &'a Field) -> (kept: Vec<&'a Directive>)
    ensures
        views_of(kept@) == without_default(field.deep_view().directives),
{
    let name = String::from_str("default");
    let mut kept: Vec<&'a Directive> = Vec::new();
    let mut i: usize = 0;
    while i < field.directives.len()
        invariant
            i <= field.directives.len(),
            name@ == default_directive_name(),
            views_of(kept@) == without_default(field.deep_view().directives.take(i as int)),
        decreases field.directives.len() - i,
    {
        let directive = &field.directives[i];
        proof {
            let seen = field.deep_view().directives.take(i + 1);
            assert(seen.drop_last() =~= field.deep_view().directives.take(i as int));
            assert(seen.last() == directive.deep_view());
        }
        if directive.name.name != name {
            let ghost before = kept@;
            kept.push(directive);
            assert(views_of(kept@) =~= views_of(before).push(directive.deep_view()));
        }
        i = i + 1;
    }
    assert(field.deep_view().directives.take(field.directives.len() as int)
        =~= field.deep_view().directives);
    kept
}

/// The directives that only the next version of a field has.
pub fn created_directives<'a>(differ: &FieldDiffer<'a>) -> (created: Vec<&'a Directive>)
    ensures
        views_of(created@) == unmatched(
            without_default(differ.deep_view().1.directives),
            without_default(differ.deep_view().0.directives),
        ),
{
    unmatched_items(&plain_directives(differ.next), &plain_directives(differ.previous))
}

/// The directives that only the previous version of a field has.
pub fn deleted_directives<'a>(differ: &FieldDiffer<'a>) -> (deleted: Vec<&'a Directive>)
    ensures
        views_of(deleted@) == unmatched(
            without_default(differ.deep_view().0.directives),
            without_default(differ.deep_view().1.directives),
        ),
{
    unmatched_items(&plain_directives(differ.previous), &plain_directives(differ.next))
}

/// The directives that both versions of a field have.
pub fn directive_pairs<'a>(differ: &FieldDiffer<'a>) -> (pairs: Vec<Paired<'a, Directive>>)
    ensures
        pairs.deep_view() == matched(
            without_default(differ.deep_view().0.directives),
            without_default(differ.deep_view().1.directives),
        ),
{
    matched_items(&plain_directives(differ.previous), &plain_directives(differ.next))
}

} // verus!
