//! One model in two versions of a schema.

use crate::ast::{Directive, Field, Model};
use crate::names::{borrow_all, matched, matched_items, unmatched, unmatched_items, views_of, Paired};
use vstd::prelude::*;

verus! {

/// A model that both versions have.
pub type ModelDiffer<'a> = Paired<'a, Model>;

/// The fields that only the next version of a model has.
pub fn created_fields<'a>(differ: &ModelDiffer<'a>) -> (created: Vec<&'a Field>)
    ensures
        views_of(created@) == unmatched(differ.deep_view().1.fields, differ.deep_view().0.fields),
{
    let previous: &'a Model = differ.previous;
    let next: &'a Model = differ.next;
    unmatched_items(&borrow_all(&next.fields), &borrow_all(&previous.fields))
}

/// The fields that only the previous version of a model has.
pub fn deleted_fields<'a>(differ: &ModelDiffer<'a>) -> (deleted: Vec<&'a Field>)
    ensures
        views_of(deleted@) == unmatched(differ.deep_view().0.fields, differ.deep_view().1.fields),
{
    let previous: &'a Model = differ.previous;
    let next: &'a Model = differ.next;
    unmatched_items(&borrow_all(&previous.fields), &borrow_all(&next.fields))
}

/// The fields that both versions of a model have.
pub fn field_pairs<'a>(differ: &ModelDiffer<'a>) -> (pairs: Vec<Paired<'a, Field>>)
    ensures
        pairs.deep_view() == matched(differ.deep_view().0.fields, differ.deep_view().1.fields),
{
    let previous: &'a Model = differ.previous;
    let next: &'a Model = differ.next;
    matched_items(&borrow_all(&previous.fields), &borrow_all(&next.fields))
}

/// The directives that only the next version of a model has.
pub fn created_directives<'a>(differ: &ModelDiffer<'a>) -> (created: Vec<&'a Directive>)
    ensures
        views_of(created@) == unmatched(
            differ.deep_view().1.directives,
            differ.deep_view().0.directives,
        ),
{
    let previous: &'a Model = differ.previous;
    let next: &'a Model = differ.next;
    unmatched_items(&borrow_all(&next.directives), &borrow_all(&previous.directives))
}

/// The directives that only the previous version of a model has.
pub fn deleted_directives<'a>(differ: &ModelDiffer<'a>) -> (deleted: Vec<&'a Directive>)
    ensures
        views_of(deleted@) == unmatched(
            differ.deep_view().0.directives,
            differ.deep_view().1.directives,
        ),
{
    let previous: &'a Model = differ.previous;
    let next: &'a Model = differ.next;
    unmatched_items(&borrow_all(&previous.directives), &borrow_all(&next.directives))
}

/// The directives that both versions of a model have.
pub fn directive_pairs<'a>(differ: &ModelDiffer<'a>) -> (pairs: Vec<Paired<'a, Directive>>)
    ensures
        pairs.deep_view() == matched(
            differ.deep_view().0.directives,
            differ.deep_view().1.directives,
        ),
{
    let previous: &'a Model = differ.previous;
    let next: &'a Model = differ.next;
    matched_items(&borrow_all(&previous.directives), &borrow_all(&next.directives))
}

} // verus!
