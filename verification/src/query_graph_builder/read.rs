//! The builders of reads, and what they and the writes make of a selection.

pub mod aggregate;

use crate::document::{
    argument_named, lookup, FieldPair, FieldPairView, ParsedField,
    ParsedFieldView,
};
use crate::error::{QueryGraphBuilderError, QueryGraphBuilderErrorView};
use crate::filter::Filter;
use crate::query_ast::{
    ReadQuery, ReadQueryView, RecordQuery, RecordQueryView, RelatedRecordsQuery,
    RelatedRecordsQueryView,
};
use crate::schema::{FieldSelection, Model, ModelView};
use vstd::prelude::*;

verus! {

/// The names under which the client receives the selected fields, in order.
pub open spec fn selection_order(fields: Seq<FieldPairView>) -> Seq<Seq<char>> {
    fields.map_values(|f: FieldPairView| f.output_name())
}

/// The selected fields that are scalar fields of the model, in order.
pub open spec fn selected_scalars(fields: Seq<FieldPairView>, model: ModelView) -> Seq<Seq<char>>
    decreases fields.len(),
{
    if fields.len() == 0 {
        Seq::empty()
    } else {
        let before = selected_scalars(fields.drop_last(), model);
        if model.has_scalar(fields.last().name) {
            before.push(fields.last().name)
        } else {
            before
        }
    }
}

/// The read of the related records for a field that has fields selected below it.
pub open spec fn nested_read(field: FieldPairView) -> RelatedRecordsQueryView {
    RelatedRecordsQueryView {
        name: field.name,
        alias: field.alias,
        parent_field: field.name,
        selection_order: field.nested_fields->Some_0,
    }
}

/// The reads of related records that a selection asks for, in order.
pub open spec fn nested_reads(fields: Seq<FieldPairView>) -> Seq<RelatedRecordsQueryView>
    decreases fields.len(),
{
    if fields.len() == 0 {
        Seq::empty()
    } else {
        let before = nested_reads(fields.drop_last());
        if fields.last().nested_fields is Some {
            before.push(nested_read(fields.last()))
        } else {
            before
        }
    }
}

/// The names under which the client receives the selected fields, in order.
pub fn collect_selection_order(fields: &Vec<FieldPair>) -> (r: Vec<String>)
    ensures
        r.deep_view() == selection_order(fields.deep_view()),
{
    let mut order: Vec<String> = Vec::new();
    let mut i: usize = 0;
    while i < fields.len()
        invariant
            i <= fields.len(),
            order.len() == i,
            forall|j: int| 0 <= j < i ==> order[j]@ == fields[j]@.output_name(),
        decreases fields.len() - i,
    {
        let name = match &fields[i].alias {
            Some(alias) => alias.clone(),
            None => fields[i].name.clone(),
        };
        order.push(name);
        i += 1;
    }
    assert(order.deep_view() =~= selection_order(fields.deep_view()));
    order
}

/// The selected fields that are scalar fields of the model, in order.
pub fn collect_selected_scalars(fields: &Vec<FieldPair>, model: &Model) -> (r: FieldSelection)
    ensures
        r@ == selected_scalars(fields.deep_view(), model@),
{
    let mut names: Vec<String> = Vec::new();
    let mut i: usize = 0;
    let ghost all = fields.deep_view();
    while i < fields.len()
        invariant
            i <= fields.len(),
            all == fields.deep_view(),
            names.deep_view() == selected_scalars(all.take(i as int), model@),
        decreases fields.len() - i,
    {
        assert(all.take(i + 1).drop_last() =~= all.take(i as int));
        if model.has_scalar_field(&fields[i].name) {
            let ghost before = names.deep_view();
            names.push(fields[i].name.clone());
            assert(names.deep_view() =~= before.push(all[i as int].name));
        }
        i += 1;
    }
    assert(all.take(i as int) =~= all);
    FieldSelection { fields: names }
}

/// The reads of related records that a selection asks for, in order.
pub fn collect_nested_reads(fields: &Vec<FieldPair>) -> (r: Vec<RelatedRecordsQuery>)
    ensures
        r.deep_view() == nested_reads(fields.deep_view()),
{
    let mut reads: Vec<RelatedRecordsQuery> = Vec::new();
    let mut i: usize = 0;
    let ghost all = fields.deep_view();
    while i < fields.len()
        invariant
            i <= fields.len(),
            all == fields.deep_view(),
            reads.deep_view() == nested_reads(all.take(i as int)),
        decreases fields.len() - i,
    {
        assert(all.take(i + 1).drop_last() =~= all.take(i as int));
        let field: &FieldPair = &fields[i];
        match &field.nested_fields {
            Some(below) => {
                let ghost before = reads.deep_view();
                let selection = below.clone();
                assert(selection.deep_view() =~= below.deep_view());
                let alias = field.alias.clone();
                let read = RelatedRecordsQuery {
                    name: field.name.clone(),
                    alias,
                    parent_field: field.name.clone(),
                    selection_order: selection,
                };
                assert(read@ == nested_read(all[i as int]));
                reads.push(read);
                assert(reads.deep_view() =~= before.push(nested_read(all[i as int])));
            },
            None => {},
        }
        i += 1;
    }
    assert(all.take(i as int) =~= all);
    reads
}

/// The filter of a read of one record: what the first `where` argument holds, if there is one.
pub open spec fn find_unique_filter(field: ParsedFieldView) -> Result<
    Option<crate::filter::FilterView>,
    QueryGraphBuilderErrorView,
> {
    match argument_named(field.arguments, "where"@) {
        Some(argument) => match argument.value.as_filter() {
            Ok(filter) => Ok(Some(filter)),
            Err(error) => Err(error),
        },
        None => Ok(None),
    }
}

/// The read of one record that a request asks for.
pub open spec fn find_unique_query(field: ParsedFieldView, model: ModelView) -> Result<
    ReadQueryView,
    QueryGraphBuilderErrorView,
> {
    match find_unique_filter(field) {
        Ok(filter) => Ok(
            ReadQueryView::RecordQuery(
                RecordQueryView {
                    name: field.name,
                    alias: field.alias,
                    model: model.name,
                    filter,
                    selected_fields: selected_scalars(field.selection(), model),
                    nested: nested_reads(field.selection()),
                    selection_order: selection_order(field.selection()),
                },
            ),
        ),
        Err(error) => Err(error),
    }
}

/// Builds the read of one record that a request asks for.
///
/// The read takes its filter from the first `where` argument and has none where the request
/// gives none. It fails if that argument holds anything but a filter.
pub fn find_unique(field: ParsedField, model: &Model) -> (r: Result<
    ReadQuery,
    QueryGraphBuilderError,
>)
    ensures
        match find_unique_query(field@, model@) {
            Ok(query) => r is Ok && r->Ok_0@ == query,
            Err(error) => r is Err && r->Err_0@ == error,
        },
{
    let ParsedField { name, alias, arguments, nested_fields } = field;
    let mut arguments = arguments;
    let filter: Option<Filter> = match lookup(&mut arguments, "where") {
        Some(argument) => Some(argument.value.try_into_filter()?),
        None => None,
    };
    let fields: Vec<FieldPair> = match nested_fields {
        Some(object) => object.fields,
        None => Vec::new(),
    };
    assert(fields.deep_view() =~= field@.selection());
    let selection_order = collect_selection_order(&fields);
    let selected_fields = collect_selected_scalars(&fields, model);
    let nested = collect_nested_reads(&fields);
    Ok(
        ReadQuery::RecordQuery(
            RecordQuery {
                name,
                alias,
                model: model.name.clone(),
                filter,
                selected_fields,
                nested,
                selection_order,
            },
        ),
    )
}

} // verus!
