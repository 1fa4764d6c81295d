//! One enum in two versions of a schema.

use crate::ast::{Directive, Enum, EnumValue};
use crate::names::{borrow_all, matched, matched_items, unmatched, unmatched_items, views_of, Paired};
use vstd::prelude::*;

verus! {

/// An enum that both versions have.
pub type EnumDiffer<'a> = Paired<'a, Enum>;

/// The values that only the next version of an enum has.
pub fn created_values<'a>(differ: &EnumDiffer<'a>) -> (created: Vec<&'a EnumValue>)
    ensures
        views_of(created@) == unmatched(differ.deep_view().1.values, differ.deep_view().0.values),
{
    let previous: &'a Enum = differ.previous;
    let next: &'a Enum = differ.next;
    unmatched_items(&borrow_all(&next.values), &borrow_all(&previous.values))
}

/// The values that only the previous version of an enum has.
pub fn deleted_values<'a>(differ: &EnumDiffer<'a>) -> (deleted: Vec<&'a EnumValue>)
    ensures
        views_of(deleted@) == unmatched(differ.deep_view().0.values, differ.deep_view().1.values),
{
    let previous: &'a Enum = differ.previous;
    let next: &'a Enum = differ.next;
    unmatched_items(&borrow_all(&previous.values), &borrow_all(&next.values))
}

/// The directives that only the next version of an enum has.
pub fn created_directives<'a>(differ: &EnumDiffer<'a>) -> (created: Vec<&'a Directive>)
    ensures
        views_of(created@) == unmatched(
            differ.deep_view().1.directives,
            differ.deep_view().0.directives,
        ),
{
    let previous: &'a Enum = differ.previous;
    let next: &'a Enum = differ.next;
    unmatched_items(&borrow_all(&next.directives), &borrow_all(&previous.directives))
}

/// The directives that only the previous version of an enum has.
pub fn deleted_directives<'a>(differ: &EnumDiffer<'a>) -> (deleted: Vec<&'a Directive>)
    ensures
        views_of(deleted@) == unmatched(
            differ.deep_view().0.directives,
            differ.deep_view().1.directives,
        ),
{
    let previous: &'a Enum = differ.previous;
    let next: &'a Enum = differ.next;
    unmatched_items(&borrow_all(&previous.directives), &borrow_all(&next.directives))
}

/// The directives that both versions of an enum have.
pub fn directive_pairs<'a>(differ: &EnumDiffer<'a>) -> (pairs: Vec<Paired<'a, Directive>>)
    ensures
        pairs.deep_view() == matched(
            differ.deep_view().0.directives,
            differ.deep_view().1.directives,
        ),
{
    let previous: &'a Enum = differ.previous;
    let next: &'a Enum = differ.next;
    matched_items(&borrow_all(&previous.directives), &borrow_all(&next.directives))
}

} // verus!
