//! The records of a response, as the request handler passes them on: each an ordered map from
//! the names of the selected fields to their values, held by the `indexmap` crate.

use crate::schema::FieldSelection;
use crate::value::{PrismaValue, PrismaValueView};
use indexmap::IndexMap;
use vstd::prelude::*;

verus! {

/// A value in a record of a response.
#[derive(Debug, PartialEq, Eq)]
pub enum Item {
    Value(PrismaValue),
    List(Vec<Item>),
}

/// The mathematical model of an [`Item`].
pub enum ItemView {
    Value(PrismaValueView),
    List(Seq<ItemView>),
}

/// The models of a list of items, one for one.
pub open spec fn item_views(items: Seq<Item>) -> Seq<ItemView>
    decreases items,
{
    Seq::new(
        items.len(),
        |i: int|
            if 0 <= i < items.len() {
                items[i].view()
            } else {
                ItemView::List(Seq::empty())
            },
    )
}

impl View for Item {
    type V = ItemView;

    open spec fn view(&self) -> ItemView
        decreases self,
    {
        match self {
            Item::Value(value) => ItemView::Value(value@),
            Item::List(items) => ItemView::List(item_views(items@)),
        }
    }
}

impl DeepView for Item {
    type V = ItemView;

    open spec fn deep_view(&self) -> ItemView {
        self@
    }
}

/// Copies a list of items.
pub fn clone_items(items: &Vec<Item>) -> (r: Vec<Item>)
    ensures
        item_views(r@) == item_views(items@),
    decreases items,
{
    let mut out: Vec<Item> = Vec::new();
    let mut i: usize = 0;
    while i < items.len()
        invariant
            i <= items.len(),
            out.len() == i,
            forall|j: int| 0 <= j < i ==> out[j]@ == items[j]@,
        decreases items.len() - i,
    {
        out.push(items[i].clone());
        i += 1;
    }
    assert(item_views(out@) =~= item_views(items@));
    out
}

impl Clone for Item {
    fn clone(&self) -> (r: Self)
        ensures
            r@ == self@,
        decreases self,
    {
        match self {
            Item::Value(value) => Item::Value(value.clone()),
            Item::List(items) => Item::List(clone_items(items)),
        }
    }
}

/// Makes `indexmap::IndexMap` known as a type of which nothing is seen inside.
#[verifier::external_type_specification]
#[verifier::external_body]
#[verifier::reject_recursive_types(K)]
#[verifier::reject_recursive_types(V)]
#[verifier::reject_recursive_types(S)]
pub struct ExIndexMap<K, V, S>(IndexMap<K, V, S>);

/// The entries of a record, in the order in which the map holds them.
pub uninterp spec fn row_entries(row: IndexMap<String, Item>) -> Seq<(Seq<char>, ItemView)>;

/// The entries whose key is among `selection`, in their order.
pub open spec fn selected_entries(
    entries: Seq<(Seq<char>, ItemView)>,
    selection: Seq<Seq<char>>,
) -> Seq<(Seq<char>, ItemView)>
    decreases entries.len(),
{
    if entries.len() == 0 {
        Seq::empty()
    } else {
        let before = selected_entries(entries.drop_last(), selection);
        if selection.contains(entries.last().0) {
            before.push(entries.last())
        } else {
            before
        }
    }
}

/// The place of the first entry with that key, or the number of entries if none has it.
pub open spec fn item_position(entries: Seq<(Seq<char>, ItemView)>, key: Seq<char>) -> int
    decreases entries.len(),
{
    if entries.len() == 0 {
        0
    } else if entries[0].0 == key {
        0
    } else {
        1 + item_position(entries.drop_first(), key)
    }
}

/// The value of the first entry with that key.
pub open spec fn item_named(entries: Seq<(Seq<char>, ItemView)>, key: Seq<char>) -> Option<
    ItemView,
> {
    if 0 <= item_position(entries, key) < entries.len() {
        Some(entries[item_position(entries, key)].1)
    } else {
        None
    }
}

/// Whether `key` is among the selected fields.
pub fn is_selected(selection: &FieldSelection, key: &String) -> (r: bool)
    ensures
        r == selection@.contains(key@),
{
    selection.contains(key)
}

/// Calls `IndexMap::get` with a string key: the value of the entry with that key, of which a
/// map has at most one, and none if no entry has it.
#[verifier::external_body]
pub(crate) fn row_get<'a>(row: &'a IndexMap<String, Item>, key: &str) -> (r: Option<&'a Item>)
    ensures
        r.deep_view() == item_named(row_entries(*row), key@),
{
    row.get(key)
}

/// Calls `Clone::clone` of `IndexMap`: the copy holds the same entries in the same order.
#[verifier::external_body]
pub(crate) fn row_clone(row: &IndexMap<String, Item>) -> (r: IndexMap<String, Item>)
    ensures
        row_entries(r) == row_entries(*row),
{
    row.clone()
}

/// Calls `IndexMap::retain`, which visits the entries in order and keeps those that the closure
/// accepts, in their order: here those whose key is selected.
#[verifier::external_body]
pub(crate) fn row_retain(row: &mut IndexMap<String, Item>, selection: &FieldSelection)
    ensures
        row_entries(*final(row)) == selected_entries(row_entries(*old(row)), selection@),
{
    row.retain(|key, _| is_selected(selection, key));
}

/// The record reduced to the selected fields.
pub fn select_fields(row: &IndexMap<String, Item>, selection: &FieldSelection) -> (r: IndexMap<
    String,
    Item,
>)
    ensures
        row_entries(r) == selected_entries(row_entries(*row), selection@),
{
    let mut kept = row_clone(row);
    row_retain(&mut kept, selection);
    kept
}

} // verus!
