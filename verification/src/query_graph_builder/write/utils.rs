//! The reads that writes put in front of themselves to learn which records they touch.

use crate::filter::{Filter, FilterView};
use crate::query_ast::{
    ManyRecordsQuery, ManyRecordsQueryView, Query, QueryView, ReadQuery, ReadQueryView,
    RecordQuery, RecordQueryView,
};
use crate::schema::FieldSelection;
use vstd::prelude::*;
use vstd::string::*;

verus! {

/// The read of the one record of `model` that passes `filter`, with the fields of `selection`.
pub open spec fn read_id_query(
    model: Seq<char>,
    selection: Seq<Seq<char>>,
    filter: FilterView,
) -> QueryView {
    QueryView::Read(
        ReadQueryView::RecordQuery(
            RecordQueryView {
                name: "read_id_infallible"@,
                alias: None,
                model,
                filter: Some(filter),
                selected_fields: selection,
                nested: Seq::empty(),
                selection_order: Seq::empty(),
            },
        ),
    )
}

/// The read of all records of `model` that pass `filter`, with the fields of `selection`.
pub open spec fn read_ids_query(
    model: Seq<char>,
    selection: Seq<Seq<char>>,
    filter: FilterView,
) -> QueryView {
    QueryView::Read(
        ReadQueryView::ManyRecordsQuery(
            ManyRecordsQueryView {
                name: "read_ids_infallible"@,
                alias: None,
                model,
                filter,
                selected_fields: selection,
                nested: Seq::empty(),
                selection_order: Seq::empty(),
            },
        ),
    )
}

/// Builds the read of the one record of `model` that passes `filter`.
pub fn read_id_infallible(model: &String, selection: FieldSelection, filter: Filter) -> (r: Query)
    ensures
        r@ == read_id_query(model@, selection@, filter@),
{
    let nested = Vec::new();
    let selection_order: Vec<String> = Vec::new();
    let alias: Option<String> = None;
    let query = RecordQuery {
        name: String::from_str("read_id_infallible"),
        alias,
        model: model.clone(),
        filter: Some(filter),
        selected_fields: selection,
        nested,
        selection_order,
    };
    assert(query.nested.deep_view() =~= Seq::empty());
    assert(query.selection_order.deep_view() =~= Seq::empty());
    Query::Read(ReadQuery::RecordQuery(query))
}

/// Builds the read of all records of `model` that pass `filter`.
pub fn read_ids_infallible(model: &String, selection: FieldSelection, filter: Filter) -> (r: Query)
    ensures
        r@ == read_ids_query(model@, selection@, filter@),
{
    let nested = Vec::new();
    let selection_order: Vec<String> = Vec::new();
    let alias: Option<String> = None;
    let query = ManyRecordsQuery {
        name: String::from_str("read_ids_infallible"),
        alias,
        model: model.clone(),
        filter,
        selected_fields: selection,
        nested,
        selection_order,
    };
    assert(query.nested.deep_view() =~= Seq::empty());
    assert(query.selection_order.deep_view() =~= Seq::empty());
    Query::Read(ReadQuery::ManyRecordsQuery(query))
}

} // verus!
