//! Classification of two lists of named items into created, deleted and paired items.

use crate::ast::{
    Argument, ArgumentView, Directive, DirectiveView, Enum, EnumValue, EnumValueView, EnumView, Field,
    FieldView, Model, ModelView,
};
use vstd::prelude::*;

verus! {

/// A ghost value that is identified by a name among its siblings.
pub trait Keyed {
    spec fn key(&self) -> Seq<char>;
}

/// An item of a schema that is identified by a name among its siblings.
pub trait Named: DeepView where <Self as DeepView>::V: Keyed {
    fn name(&self) -> (name: &String)
        ensures
            name@ == self.deep_view().key(),
    ;
}

/// Some item of `items` has the name `key`.
pub open spec fn has_key<T: Keyed>(items: Seq<T>, key: Seq<char>) -> bool {
    exists|i: int| 0 <= i < items.len() && (#[trigger] items[i]).key() == key
}

/// `i` is the position of the first item of `items` with the name `key`.
pub open spec fn is_first_with_key<T: Keyed>(items: Seq<T>, key: Seq<char>, i: int) -> bool {
    &&& 0 <= i < items.len()
    &&& items[i].key() == key
    &&& forall|j: int| 0 <= j < i ==> (#[trigger] items[j]).key() != key
}

/// The position of the first item of `items` with the name `key`.
pub open spec fn first_index<T: Keyed>(items: Seq<T>, key: Seq<char>) -> int {
    choose|i: int| is_first_with_key(items, key, i)
}

/// The items of `items`, in order, whose name no item of `others` has.
pub open spec fn unmatched<T: Keyed>(items: Seq<T>, others: Seq<T>) -> Seq<T>
    decreases items.len(),
{
    if items.len() == 0 {
        Seq::empty()
    } else if has_key(others, items.last().key()) {
        unmatched(items.drop_last(), others)
    } else {
        unmatched(items.drop_last(), others).push(items.last())
    }
}

/// Each item of `items`, in order, whose name some item of `others` has, together with the
/// first such item of `others`.
pub open spec fn matched<T: Keyed>(items: Seq<T>, others: Seq<T>) -> Seq<(T, T)>
    decreases items.len(),
{
    if items.len() == 0 {
        Seq::empty()
    } else if has_key(others, items.last().key()) {
        matched(items.drop_last(), others).push(
            (items.last(), others[first_index(others, items.last().key())]),
        )
    } else {
        matched(items.drop_last(), others)
    }
}

/// The deep views of a list of borrowed items.
pub open spec fn views_of<T: DeepView>(items: Seq<&T>) -> Seq<T::V> {
    Seq::new(items.len(), |i: int| items[i].deep_view())
}

/// Finds the first of `items` whose name is `name`.
pub fn position_of<T: Named>(items: &Vec<&T>, name: &String) -> (found: Option<usize>) where
    <T as DeepView>::V: Keyed,

    ensures
        found matches Some(i) ==> is_first_with_key(views_of(items@), name@, i as int),
        found is None ==> !has_key(views_of(items@), name@),
{
    let mut i: usize = 0;
    while i < items.len()
        invariant
            i <= items.len(),
            forall|j: int| 0 <= j < i ==> (#[trigger] views_of(items@)[j]).key() != name@,
        decreases items.len() - i,
    {
        if *items[i].name() == *name {
            return Some(i);
        }
        i = i + 1;
    }
    None
}

/// An item of the previous schema together with the item of the next schema that has its name.
pub struct Paired<'a, T> {
    pub previous: &'a T,
    pub next: &'a T,
}

impl<'a, T: DeepView> DeepView for Paired<'a, T> {
    type V = (T::V, T::V);

    open spec fn deep_view(&self) -> (T::V, T::V) {
        (self.previous.deep_view(), self.next.deep_view())
    }
}

/// The first item with a given name is at one position only.
pub proof fn lemma_first_index_unique<T: Keyed>(items: Seq<T>, key: Seq<char>, i: int)
    requires
        is_first_with_key(items, key, i),
    ensures
        first_index(items, key) == i,
{
    let c = first_index(items, key);
    assert(is_first_with_key(items, key, c));
    if c < i {
        assert(items[c].key() != key);
    }
    if i < c {
        assert(items[i].key() != key);
    }
}

/// The first `i + 1` items are the first `i` items and the item at `i`.
pub proof fn lemma_take_step<T>(items: Seq<T>, i: int)
    requires
        0 <= i < items.len(),
    ensures
        items.take(i + 1).drop_last() == items.take(i),
        items.take(i + 1).last() == items[i],
        items.take(i + 1).len() == i + 1,
{
    assert(items.take(i + 1).drop_last() =~= items.take(i));
}

/// Taking every item gives the whole list.
pub proof fn lemma_take_all<T>(items: Seq<T>)
    ensures
        items.take(items.len() as int) == items,
{
    assert(items.take(items.len() as int) =~= items);
}

/// Borrows every item of a list.
pub fn borrow_all<'a, T: DeepView>(items: &'a Vec<T>) -> (borrowed: Vec<&'a T>)
    ensures
        views_of(borrowed@) == items.deep_view(),
{
    let mut borrowed: Vec<&'a T> = Vec::new();
    let mut i: usize = 0;
    while i < items.len()
        invariant
            i <= items.len(),
            borrowed@.len() == i,
            forall|j: int| 0 <= j < i ==> *borrowed@[j] == items@[j],
        decreases items.len() - i,
    {
        borrowed.push(&items[i]);
        i = i + 1;
    }
    assert(views_of(borrowed@) =~= items.deep_view());
    borrowed
}

/// The items of `items` whose name none of `others` has, in order.
pub fn unmatched_items<'a, T: Named>(items: &Vec<&'a T>, others: &Vec<&'a T>) -> (kept: Vec<
    &'a T,
>) where <T as DeepView>::V: Keyed
    ensures
        views_of(kept@) == unmatched(views_of(items@), views_of(others@)),
{
    let mut kept: Vec<&'a T> = Vec::new();
    let mut i: usize = 0;
    while i < items.len()
        invariant
            i <= items.len(),
            views_of(kept@) == unmatched(views_of(items@).take(i as int), views_of(others@)),
        decreases items.len() - i,
    {
        let item = items[i];
        let found = position_of(others, item.name());
        proof {
            let seen = views_of(items@).take(i + 1);
            assert(seen.drop_last() =~= views_of(items@).take(i as int));
            assert(seen.last() == item.deep_view());
        }
        if found.is_none() {
            let ghost before = kept@;
            kept.push(item);
            assert(views_of(kept@) =~= views_of(before).push(item.deep_view()));
        }
        i = i + 1;
    }
    assert(views_of(items@).take(items@.len() as int) =~= views_of(items@));
    kept
}

/// Each item of `items` whose name some item of `others` has, with the first such item.
pub fn matched_items<'a, T: Named>(items: &Vec<&'a T>, others: &Vec<&'a T>) -> (pairs: Vec<
    Paired<'a, T>,
>) where <T as DeepView>::V: Keyed
    ensures
        pairs.deep_view() == matched(views_of(items@), views_of(others@)),
{
    let mut pairs: Vec<Paired<'a, T>> = Vec::new();
    let mut i: usize = 0;
    while i < items.len()
        invariant
            i <= items.len(),
            pairs.deep_view() == matched(views_of(items@).take(i as int), views_of(others@)),
        decreases items.len() - i,
    {
        let item = items[i];
        let found = position_of(others, item.name());
        proof {
            let seen = views_of(items@).take(i + 1);
            assert(seen.drop_last() =~= views_of(items@).take(i as int));
            assert(seen.last() == item.deep_view());
        }
        match found {
            Some(j) => {
                proof {
                    lemma_first_index_unique(views_of(others@), item.deep_view().key(), j as int);
                }
                let other = others[j];
                let ghost before = pairs.deep_view();
                pairs.push(Paired { previous: item, next: other });
                assert(pairs.deep_view() =~= before.push((item.deep_view(), other.deep_view())));
            },
            None => {},
        }
        i = i + 1;
    }
    assert(views_of(items@).take(items@.len() as int) =~= views_of(items@));
    pairs
}

impl Keyed for EnumView {
    open spec fn key(&self) -> Seq<char> {
        self.name
    }
}

impl Keyed for EnumValueView {
    open spec fn key(&self) -> Seq<char> {
        self.name
    }
}

impl Keyed for ModelView {
    open spec fn key(&self) -> Seq<char> {
        self.name
    }
}

impl Keyed for FieldView {
    open spec fn key(&self) -> Seq<char> {
        self.name
    }
}

impl Keyed for DirectiveView {
    open spec fn key(&self) -> Seq<char> {
        self.name
    }
}

impl Keyed for ArgumentView {
    open spec fn key(&self) -> Seq<char> {
        self.name
    }
}

impl Named for Enum {
    fn name(&self) -> (name: &String) {
        &self.name.name
    }
}

impl Named for EnumValue {
    fn name(&self) -> (name: &String) {
        &self.name
    }
}

impl Named for Model {
    fn name(&self) -> (name: &String) {
        &self.name.name
    }
}

impl Named for Field {
    fn name(&self) -> (name: &String) {
        &self.name.name
    }
}

impl Named for Directive {
    fn name(&self) -> (name: &String) {
        &self.name.name
    }
}

impl Named for Argument {
    fn name(&self) -> (name: &String) {
        &self.name.name
    }
}

} // verus!
