//! The top-level declarations of two versions of a schema.

use crate::ast::{Enum, EnumView, Model, ModelView, SchemaAst, Top, TopView};
use crate::names::{matched, matched_items, unmatched, unmatched_items, views_of, Paired};
use vstd::prelude::*;

verus! {

/// Two versions of a schema.
pub struct TopDiffer<'a> {
    pub previous: &'a SchemaAst,
    pub next: &'a SchemaAst,
}

/// The enums among the declarations, in order.
pub open spec fn enums_of(tops: Seq<TopView>) -> Seq<EnumView>
    decreases tops.len(),
{
    if tops.len() == 0 {
        Seq::empty()
    } else {
        match tops.last() {
            TopView::Enum(e) => enums_of(tops.drop_last()).push(e),
            TopView::Model(_) => enums_of(tops.drop_last()),
        }
    }
}

/// The models among the declarations, in order.
pub open spec fn models_of(tops: Seq<TopView>) -> Seq<ModelView>
    decreases tops.len(),
{
    if tops.len() == 0 {
        Seq::empty()
    } else {
        match tops.last() {
            TopView::Model(m) => models_of(tops.drop_last()).push(m),
            TopView::Enum(_) => models_of(tops.drop_last()),
        }
    }
}

/// The enums of a schema.
pub fn enums_in<'a>(schema: &'a SchemaAst) -> (enums: Vec<&'a Enum>)
    ensures
        views_of(enums@) == enums_of(schema.deep_view().tops),
{
    let mut enums: Vec<&'a Enum> = Vec::new();
    let mut i: usize = 0;
    while i < schema.tops.len()
        invariant
            i <= schema.tops.len(),
            views_of(enums@) == enums_of(schema.deep_view().tops.take(i as int)),
        decreases schema.tops.len() - i,
    {
        proof {
            let seen = schema.deep_view().tops.take(i + 1);
            assert(seen.drop_last() =~= schema.deep_view().tops.take(i as int));
            assert(seen.last() == schema.tops@[i as int].deep_view());
        }
        match &schema.tops[i] {
            Top::Enum(e) => {
                let ghost before = enums@;
                enums.push(e);
                assert(views_of(enums@) =~= views_of(before).push(e.deep_view()));
            },
            Top::Model(_) => {},
        }
        i = i + 1;
    }
    assert(schema.deep_view().tops.take(schema.tops.len() as int) =~= schema.deep_view().tops);
    enums
}

/// The models of a schema.
pub fn models_in<'a>(schema: &'a SchemaAst) -> (models: Vec<&'a Model>)
    ensures
        views_of(models@) == models_of(schema.deep_view().tops),
{
    let mut models: Vec<&'a Model> = Vec::new();
    let mut i: usize = 0;
    while i < schema.tops.len()
        invariant
            i <= schema.tops.len(),
            views_of(models@) == models_of(schema.deep_view().tops.take(i as int)),
        decreases schema.tops.len() - i,
    {
        proof {
            let seen = schema.deep_view().tops.take(i + 1);
            assert(seen.drop_last() =~= schema.deep_view().tops.take(i as int));
            assert(seen.last() == schema.tops@[i as int].deep_view());
        }
        match &schema.tops[i] {
            Top::Model(m) => {
                let ghost before = models@;
                models.push(m);
                assert(views_of(models@) =~= views_of(before).push(m.deep_view()));
            },
            Top::Enum(_) => {},
        }
        i = i + 1;
    }
    assert(schema.deep_view().tops.take(schema.tops.len() as int) =~= schema.deep_view().tops);
    models
}

impl<'a> TopDiffer<'a> {
    pub open spec fn previous_enums(&self) -> Seq<EnumView> {
        enums_of(self.previous.deep_view().tops)
    }

    pub open spec fn next_enums(&self) -> Seq<EnumView> {
        enums_of(self.next.deep_view().tops)
    }

    pub open spec fn previous_models(&self) -> Seq<ModelView> {
        models_of(self.previous.deep_view().tops)
    }

    pub open spec fn next_models(&self) -> Seq<ModelView> {
        models_of(self.next.deep_view().tops)
    }

    /// The enums that only the next schema has.
    pub fn created_enums(&self) -> (created: Vec<&'a Enum>)
        ensures
            views_of(created@) == unmatched(self.next_enums(), self.previous_enums()),
    {
        unmatched_items(&enums_in(self.next), &enums_in(self.previous))
    }

    /// The enums that only the previous schema has.
    pub fn deleted_enums(&self) -> (deleted: Vec<&'a Enum>)
        ensures
            views_of(deleted@) == unmatched(self.previous_enums(), self.next_enums()),
    {
        unmatched_items(&enums_in(self.previous), &enums_in(self.next))
    }

    /// The enums that both schemas have.
    pub fn enum_pairs(&self) -> (pairs: Vec<Paired<'a, Enum>>)
        ensures
            pairs.deep_view() == matched(self.previous_enums(), self.next_enums()),
    {
        matched_items(&enums_in(self.previous), &enums_in(self.next))
    }

    /// The models that only the next schema has.
    pub fn created_models(&self) -> (created: Vec<&'a Model>)
        ensures
            views_of(created@) == unmatched(self.next_models(), self.previous_models()),
    {
        unmatched_items(&models_in(self.next), &models_in(self.previous))
    }

    /// The models that only the previous schema has.
    pub fn deleted_models(&self) -> (deleted: Vec<&'a Model>)
        ensures
            views_of(deleted@) == unmatched(self.previous_models(), self.next_models()),
    {
        unmatched_items(&models_in(self.previous), &models_in(self.next))
    }

    /// The models that both schemas have.
    pub fn model_pairs(&self) -> (pairs: Vec<Paired<'a, Model>>)
        ensures
            pairs.deep_view() == matched(self.previous_models(), self.next_models()),
    {
        matched_items(&models_in(self.previous), &models_in(self.next))
    }
}

} // verus!
