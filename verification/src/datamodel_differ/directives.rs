//! Directives of one entity in two versions of a schema, and the arguments inside them.

use crate::ast::{Argument, ArgumentView, Directive, DirectiveView};
use crate::names::{
    borrow_all, first_index, has_key, matched, matched_items, position_of, unmatched,
    unmatched_items, Paired,
};
use vstd::prelude::*;
use vstd::string::StringExecFns;

verus! {

/// A directive that both versions have.
pub type DirectiveDiffer<'a> = Paired<'a, Directive>;

/// The first argument of the first directive called `name`.
pub open spec fn first_argument_of(name: Seq<char>, directives: Seq<DirectiveView>) -> Option<
    ArgumentView,
> {
    if has_key(directives, name) {
        let directive = directives[first_index(directives, name)];
        if directive.arguments.len() > 0 {
            Some(directive.arguments[0])
        } else {
            None
        }
    } else {
        None
    }
}

/// The text of the first argument of the first directive called `name`, where that argument
/// is a string literal.
pub open spec fn directive_string_value(name: Seq<char>, directives: Seq<DirectiveView>) -> Option<
    Seq<char>,
> {
    match first_argument_of(name, directives) {
        Some(argument) => argument.value.string_value,
        None => None,
    }
}

/// Finds the first argument of the first directive called `name`.
pub fn first_argument<'a>(name: &String, directives: &'a Vec<Directive>) -> (found: Option<
    &'a Argument,
>)
    ensures
        found.deep_view() == first_argument_of(name@, directives.deep_view()),
{
    let borrowed = borrow_all(directives);
    match position_of(&borrowed, name) {
        Some(i) => {
            proof {
                crate::names::lemma_first_index_unique(directives.deep_view(), name@, i as int);
            }
            let directive = borrowed[i];
            if directive.arguments.len() > 0 {
                Some(&directive.arguments[0])
            } else {
                None
            }
        },
        None => None,
    }
}

/// The string that the first directive called `directive_name` gives as its first argument.
pub fn get_directive_string_value<'a>(directive_name: &str, directives: &'a Vec<Directive>) -> (value:
    Option<&'a str>)
    ensures
        value.deep_view() == directive_string_value(directive_name@, directives.deep_view()),
{
    let name = String::from_str(directive_name);
    match first_argument(&name, directives) {
        Some(argument) => match &argument.value {
            crate::ast::Expression::StringValue(text) => Some(text.as_str()),
            _ => None,
        },
        None => None,
    }
}

/// The arguments that only the next version of a directive has.
pub fn created_arguments<'a>(directive: &DirectiveDiffer<'a>) -> (created: Vec<&'a Argument>)
    ensures
        crate::names::views_of(created@) == unmatched(
            directive.deep_view().1.arguments,
            directive.deep_view().0.arguments,
        ),
{
    let previous: &'a Directive = directive.previous;
    let next: &'a Directive = directive.next;
    unmatched_items(&borrow_all(&next.arguments), &borrow_all(&previous.arguments))
}

/// The arguments that only the previous version of a directive has.
pub fn deleted_arguments<'a>(directive: &DirectiveDiffer<'a>) -> (deleted: Vec<&'a Argument>)
    ensures
        crate::names::views_of(deleted@) == unmatched(
            directive.deep_view().0.arguments,
            directive.deep_view().1.arguments,
        ),
{
    let previous: &'a Directive = directive.previous;
    let next: &'a Directive = directive.next;
    unmatched_items(&borrow_all(&previous.arguments), &borrow_all(&next.arguments))
}

/// The arguments that both versions of a directive have.
pub fn argument_pairs<'a>(directive: &DirectiveDiffer<'a>) -> (pairs: Vec<Paired<'a, Argument>>)
    ensures
        pairs.deep_view() == matched(
            directive.deep_view().0.arguments,
            directive.deep_view().1.arguments,
        ),
{
    let previous: &'a Directive = directive.previous;
    let next: &'a Directive = directive.next;
    matched_items(&borrow_all(&previous.arguments), &borrow_all(&next.arguments))
}

} // verus!
