//! Updating one record, and updating all records that pass a filter.

use crate::datetime::DateTime;
use crate::document::{
    argument_named, lookup, without_argument, FieldPair, ParsedArgumentView, ParsedField,
    ParsedFieldView, ParsedInputFieldView, ParsedInputMap, ParsedObject,
};
use crate::error::{
    DataDependencyError, DataOperation, MissingRecord, QueryGraphBuilderError,
    QueryGraphBuilderErrorView,
};
use crate::filter::{empty_filter, Filter, FilterView, RecordFilter, RecordFilterView};
use crate::query_ast::{
    with_datetimes,
    Query, QueryView, UpdateManyRecords, UpdateManyRecordsFields, UpdateManyRecordsFieldsView,
    UpdateManyRecordsView, UpdateRecord, UpdateRecordView, UpdateRecordWithSelection,
    UpdateRecordWithSelectionView, UpdateRecordWithoutSelection, UpdateRecordWithoutSelectionView,
    WriteQuery, WriteQueryView,
};
use crate::query_graph::{
    lemma_count_push, DataExpectation, Node, NodeRef, NodeView, QueryGraph, QueryGraphDependency,
    QueryGraphDependencyView, QueryGraphView, RowExpectation, RowSink, Transform,
};
use crate::query_graph_builder::read::{
    collect_nested_reads, collect_selected_scalars, collect_selection_order, find_unique,
    find_unique_query, nested_reads, selected_scalars, selection_order,
};
use crate::query_graph_builder::write::limit::{limit_of, validate_limit};
use crate::query_graph_builder::write::nested::{
    connect_nested_query, lemma_nested_operations_expect_rows, lemma_nested_operations_grown,
    lemma_nested_operations_size, nested_operations_error, nested_operations_graph,
};
use crate::query_graph_builder::write::utils::{
    read_id_infallible, read_id_query, read_ids_infallible, read_ids_query,
};
use crate::query_graph_builder::write::write_args_parser::{
    names_relation, sort_entries, NestedWrite, NestedWriteView, WriteArgsParser,
};
use crate::schema::{ConnectorCapability, Model, ModelView, QuerySchema, QuerySchemaView};
use crate::value::FieldValueView;
use vstd::prelude::*;
use vstd::string::*;

verus! {

/// The expectation that the record to update exists.
pub open spec fn record_to_update() -> DataExpectation {
    DataExpectation {
        rows: RowExpectation::NonEmpty,
        error: DataDependencyError::MissingRecord(
            MissingRecord { operation: DataOperation::Update },
        ),
    }
}

/// Whether one operation can both update the record and hand back what the client selected:
/// the connector returns updated rows, nothing is selected below a selected field, and no
/// entry of the data is named like a relation field.
pub open spec fn atomic_update(
    query_schema: QuerySchemaView,
    model: ModelView,
    data_map: Seq<ParsedInputFieldView>,
    field: ParsedFieldView,
) -> bool {
    &&& query_schema.capabilities.contains(ConnectorCapability::UpdateReturning)
    &&& !field.has_nested_selection()
    &&& !names_relation(model, data_map)
}

/// Whether the update can be done, and its result read, in a single operation.
pub fn can_use_atomic_update(
    query_schema: &QuerySchema,
    model: &Model,
    data_map: &ParsedInputMap,
    field: &ParsedField,
) -> (r: bool)
    ensures
        r == atomic_update(query_schema@, model@, data_map@, field@),
{
    // If the connector does not support RETURNING at all
    if !query_schema.has_capability(ConnectorCapability::UpdateReturning) {
        return false;
    }
    // If the operation has nested selection sets

    if field.has_nested_selection() {
        return false;
    }
    // If the operation has nested operations

    if WriteArgsParser::has_nested_operation(model, data_map) {
        return false;
    }
    true
}

/// The error of the first nested write that gives rise to one.
pub open spec fn nested_writes_error(nested: Seq<NestedWriteView>) -> Option<
    QueryGraphBuilderErrorView,
>
    decreases nested.len(),
{
    if nested.len() == 0 {
        None
    } else {
        match nested_writes_error(nested.drop_last()) {
            Some(error) => Some(error),
            None => nested_operations_error(
                nested.last().relation_field,
                nested.last().operations,
            ),
        }
    }
}

/// The graph with the nested writes behind `parent`, relation field by relation field.
pub open spec fn nested_writes_graph(
    graph: QueryGraphView,
    parent: NodeRef,
    nested: Seq<NestedWriteView>,
) -> QueryGraphView
    decreases nested.len(),
{
    if nested.len() == 0 {
        graph
    } else {
        nested_operations_graph(
            nested_writes_graph(graph, parent, nested.drop_last()),
            parent,
            nested.last().relation_field,
            nested.last().operations,
        )
    }
}

/// An error among the first `upto` nested writes is the error of all of them.
pub proof fn lemma_nested_writes_error_stays(nested: Seq<NestedWriteView>, upto: int)
    requires
        0 <= upto <= nested.len(),
        nested_writes_error(nested.take(upto)) is Some,
    ensures
        nested_writes_error(nested) == nested_writes_error(nested.take(upto)),
    decreases nested.len() - upto,
{
    if upto < nested.len() {
        assert(nested.take(upto + 1).drop_last() =~= nested.take(upto));
        lemma_nested_writes_error_stays(nested, upto + 1);
    } else {
        assert(nested.take(upto) =~= nested);
    }
}

/// Adds the nested writes behind `parent`, in the order given.
fn connect_nested_writes(graph: &mut QueryGraph, parent: NodeRef, nested: Vec<NestedWrite>) -> (r:
    Result<(), QueryGraphBuilderError>)
    requires
        old(graph)@.wf(),
        old(graph)@.contains(parent),
    ensures
        final(graph)@.wf(),
        final(graph)@.contains(parent),
        final(graph)@.result_node == old(graph)@.result_node,
        old(graph)@.transactional ==> final(graph)@.transactional,
        match nested_writes_error(nested.deep_view()) {
            None => r is Ok && final(graph)@ == nested_writes_graph(
                old(graph)@,
                parent,
                nested.deep_view(),
            ),
            Some(error) => r is Err && r->Err_0@ == error,
        },
{
    let ghost all = nested.deep_view();
    let ghost items = nested@;
    assert(all.take(0) =~= Seq::empty());
    for write in it: nested
        invariant
            it.seq() == items,
            all == nested.deep_view(),
            all.len() == items.len(),
            forall|j: int| 0 <= j < items.len() ==> all[j] == items[j]@,
            graph@.wf(),
            graph@.contains(parent),
            graph@.result_node == old(graph)@.result_node,
            old(graph)@.transactional ==> graph@.transactional,
            nested_writes_error(all.take(it.index() as int)) is None,
            graph@ == nested_writes_graph(old(graph)@, parent, all.take(it.index() as int)),
    {
        let ghost done = it.index() as int;
        assert(write@ == all[done]);
        assert(all.take(done + 1).drop_last() =~= all.take(done));
        let NestedWrite { relation_field, operations } = write;
        match connect_nested_query(graph, parent, relation_field, operations) {
            Ok(()) => {},
            Err(error) => {
                proof {
                    lemma_nested_writes_error_stays(all, done + 1);
                }
                return Err(error);
            },
        }
    }
    assert(all.take(all.len() as int) =~= all);
    Ok(())
}

/// The node that updates one record.
///
/// Where the connector returns updated rows, the node hands back what `field` selects of the
/// model's scalar fields, or what identifies the record if there is no `field`.
pub open spec fn update_node(
    query_schema: QuerySchemaView,
    filter: FilterView,
    model: ModelView,
    args: Seq<FieldValueView>,
    field: Option<ParsedFieldView>,
) -> NodeView {
    let record_filter = RecordFilterView { filter, selectors: None };
    let update = if query_schema.capabilities.contains(ConnectorCapability::UpdateReturning) {
        match field {
            Some(field) => UpdateRecordView::WithSelection(
                UpdateRecordWithSelectionView {
                    name: field.name,
                    model: model.name,
                    record_filter,
                    args,
                    selected_fields: selected_scalars(field.selection(), model),
                    selection_order: selection_order(field.selection()),
                },
            ),
            None => UpdateRecordView::WithSelection(
                UpdateRecordWithSelectionView {
                    name: Seq::empty(),
                    model: model.name,
                    record_filter,
                    args,
                    selected_fields: model.primary_identifier,
                    selection_order: model.primary_identifier,
                },
            ),
        }
    } else {
        UpdateRecordView::WithoutSelection(
            UpdateRecordWithoutSelectionView { model: model.name, record_filter, args },
        )
    };
    NodeView::Query(QueryView::Write(WriteQueryView::UpdateRecord(update)))
}

/// The error of a write with this data: that of sorting the data, else that of the first
/// nested write which gives rise to one.
pub open spec fn write_data_error(model: ModelView, data_map: Seq<ParsedInputFieldView>) -> Option<
    QueryGraphBuilderErrorView,
> {
    match sort_entries(model, data_map) {
        Err(error) => Some(error),
        Ok(sorted) => nested_writes_error(sorted.nested),
    }
}

/// The graph with the update node as its next node, and behind it the nested writes.
pub open spec fn update_record_node_graph(
    graph: QueryGraphView,
    query_schema: QuerySchemaView,
    filter: FilterView,
    model: ModelView,
    data_map: Seq<ParsedInputFieldView>,
    field: Option<ParsedFieldView>,
    request_now: DateTime,
) -> QueryGraphView {
    let sorted = sort_entries(model, data_map)->Ok_0;
    nested_writes_graph(
        graph.with_node(update_node(query_schema, filter, model, with_datetimes(sorted.args, model.updated_at_fields, request_now), field)),
        NodeRef { node_ix: graph.nodes.len() as usize },
        sorted.nested,
    )
}

/// Adds the node that updates one record, and behind it the writes nested in the data.
///
/// The handle of the update node is returned. If the data cannot be sorted, the graph stays as
/// it was.
/// `request_now` is the time of the request; the update assigns it to the fields that hold
/// the time of the last update, unless it assigns nothing at all or assigns to them itself.
pub fn update_record_node(
    graph: &mut QueryGraph,
    query_schema: &QuerySchema,
    filter: Filter,
    model: Model,
    data_map: ParsedInputMap,
    field: Option<&ParsedField>,
    request_now: DateTime,
) -> (r: Result<NodeRef, QueryGraphBuilderError>)
    requires
        old(graph)@.wf(),
    ensures
        final(graph)@.wf(),
        final(graph)@.result_node == old(graph)@.result_node,
        r is Ok ==> final(graph)@.contains(r->Ok_0),
        r is Ok && old(graph)@.acyclic() ==> final(graph)@.acyclic(),
        sort_entries(model@, data_map@) is Err ==> final(graph)@ == old(graph)@,
        match write_data_error(model@, data_map@) {
            None => r is Ok && r->Ok_0.node_ix == old(graph)@.nodes.len() && final(graph)@
                == update_record_node_graph(
                old(graph)@,
                query_schema@,
                filter@,
                model@,
                data_map@,
                field.deep_view(),
                request_now,
            ),
            Some(error) => r is Err && r->Err_0@ == error,
        },
{
    let update_args = WriteArgsParser::from(&model, data_map)?;
    let WriteArgsParser { args, nested } = update_args;
    let mut args = args;

    args.update_datetimes(&model, request_now);

    // If the connector can return the updated row, always let it: this may save a read, and
    // the identifier need not be computed here if the update changes it.
    let update_parent = if query_schema.has_capability(ConnectorCapability::UpdateReturning) {
        match field {
            // If there's a selected field, fulfill the scalar selection set.
            Some(field) => {
                let order;
                let selected;
                match &field.nested_fields {
                    Some(object) => {
                        order = collect_selection_order(&object.fields);
                        selected = collect_selected_scalars(&object.fields, &model);
                    },
                    None => {
                        let none: Vec<FieldPair> = Vec::new();
                        assert(none.deep_view() =~= field@.selection());
                        order = collect_selection_order(&none);
                        selected = collect_selected_scalars(&none, &model);
                    },
                }
                UpdateRecord::WithSelection(
                    UpdateRecordWithSelection {
                        name: field.name.clone(),
                        model: model.name.clone(),
                        record_filter: RecordFilter::from_filter(filter),
                        args,
                        selected_fields: selected,
                        selection_order: order,
                    },
                )
            },
            // Otherwise, fall back to the primary identifier, which the nested operations need.
            None => {
                let selected_fields = model.shard_aware_primary_identifier();
                let selection_order = selected_fields.db_names();
                UpdateRecord::WithSelection(
                    UpdateRecordWithSelection {
                        name: String::new(),
                        model: model.name.clone(),
                        record_filter: RecordFilter::from_filter(filter),
                        args,
                        selected_fields,
                        selection_order,
                    },
                )
            },
        }
    } else {
        UpdateRecord::WithoutSelection(
            UpdateRecordWithoutSelection {
                model: model.name.clone(),
                record_filter: RecordFilter::from_filter(filter),
                args,
            },
        )
    };

    let update_node = graph.create_node(
        Node::Query(Query::Write(WriteQuery::UpdateRecord(update_parent))),
    );

    connect_nested_writes(graph, update_node, nested)?;

    proof {
        lemma_update_record_node_grown(
            old(graph)@,
            query_schema@,
            filter@,
            model@,
            data_map@,
            field.deep_view(),
            request_now,
        );
        if old(graph)@.acyclic() {
            graph@.lemma_grown_acyclic(old(graph)@);
        }
    }
    Ok(update_node)
}

/// What a request to update one record holds: the filter of the record, the data, and the
/// request without the two arguments that held them.
pub struct UpdateRequestView {
    pub filter: FilterView,
    pub data_map: Seq<ParsedInputFieldView>,
    pub rest: ParsedFieldView,
}

/// The message of the error for a request without a `where` argument.
pub open spec fn missing_where_message() -> Seq<char> {
    "Expected the argument `where` to be present."@
}

/// The message of the error for a request without a `data` argument.
pub open spec fn missing_data_message() -> Seq<char> {
    "Expected the argument `data` to be present."@
}

/// The data of a write: what the first `data` argument holds.
pub open spec fn data_of(arguments: Seq<ParsedArgumentView>) -> Result<
    Seq<ParsedInputFieldView>,
    QueryGraphBuilderErrorView,
> {
    match argument_named(arguments, "data"@) {
        None => Err(QueryGraphBuilderErrorView::InputError(missing_data_message())),
        Some(data) => data.value.as_map(),
    }
}

/// Takes a request to update one record apart.
///
/// The first `where` argument must hold a filter and the first `data` argument a data map; the
/// error is that of the first of these demands that is not met, `where` before `data`.
pub open spec fn update_request(field: ParsedFieldView) -> Result<
    UpdateRequestView,
    QueryGraphBuilderErrorView,
> {
    match argument_named(field.arguments, "where"@) {
        None => Err(QueryGraphBuilderErrorView::InputError(missing_where_message())),
        Some(selector) => match selector.value.as_filter() {
            Err(error) => Err(error),
            Ok(filter) => {
                let rest = without_argument(field.arguments, "where"@);
                match data_of(rest) {
                    Err(error) => Err(error),
                    Ok(data_map) => Ok(
                        UpdateRequestView {
                            filter,
                            data_map,
                            rest: ParsedFieldView {
                                arguments: without_argument(rest, "data"@),
                                ..field
                            },
                        },
                    ),
                }
            },
        },
    }
}

/// The error with which the build of an update of one record ends, if it does: that of taking
/// the request apart, else that of its data, else, unless the update is atomic, that of the
/// read which follows the update.
pub open spec fn update_record_error(
    query_schema: QuerySchemaView,
    model: ModelView,
    field: ParsedFieldView,
) -> Option<QueryGraphBuilderErrorView> {
    match update_request(field) {
        Err(error) => Some(error),
        Ok(request) => match write_data_error(model, request.data_map) {
            Some(error) => Some(error),
            None => if atomic_update(query_schema, model, request.data_map, request.rest) {
                None
            } else {
                match find_unique_query(request.rest, model) {
                    Err(error) => Some(error),
                    Ok(_) => None,
                }
            },
        },
    }
}

/// Whether a read of the record's identifier precedes the update: never before an atomic
/// update; before another where the connector does not return updated rows, and where the
/// query layer enforces relational integrity.
pub open spec fn reads_before_update(query_schema: QuerySchemaView, atomic: bool) -> bool {
    !atomic && (!query_schema.capabilities.contains(ConnectorCapability::UpdateReturning)
        || query_schema.relation_mode.spec_is_prisma())
}

/// The graph with the update of one record that `request` asks for.
///
/// The update node comes first, with its nested writes. An atomic update is the result node
/// and the only operation; behind it stands an empty node that only checks that a record was
/// updated. Otherwise the graph is transactional; where a read precedes the update, its node
/// follows the update node, and its rows become the selectors of the update; and the result
/// node is a read of the updated record, which takes its filter from the row that the update
/// hands back. Each of these edges expects at least one row.
pub open spec fn update_record_graph(
    graph: QueryGraphView,
    query_schema: QuerySchemaView,
    model: ModelView,
    request: UpdateRequestView,
    request_now: DateTime,
) -> QueryGraphView {
    let update = NodeRef { node_ix: graph.nodes.len() as usize };
    let updated = update_record_node_graph(
        graph,
        query_schema,
        request.filter,
        model,
        request.data_map,
        Some(request.rest),
        request_now,
    );
    let atomic = atomic_update(query_schema, model, request.data_map, request.rest);
    let read_first = if reads_before_update(query_schema, atomic) {
        let read_parent = NodeRef { node_ix: updated.nodes.len() as usize };
        updated.with_node(
            NodeView::Query(read_id_query(model.name, model.primary_identifier, request.filter)),
        ).with_edge(
            read_parent,
            update,
            QueryGraphDependencyView::ProjectedDataSinkDependency(
                model.primary_identifier,
                RowSink::AllUpdateRecordSelectors,
                Some(record_to_update()),
            ),
        )
    } else {
        updated
    };
    let last = NodeRef { node_ix: read_first.nodes.len() as usize };
    if atomic {
        read_first.with_result(update).with_node(NodeView::Empty).with_edge(
            update,
            last,
            QueryGraphDependencyView::ProjectedDataDependency(
                model.primary_identifier,
                Transform::Identity,
                Some(record_to_update()),
            ),
        )
    } else {
        read_first.flagged().with_node(
            NodeView::Query(QueryView::Read(find_unique_query(request.rest, model)->Ok_0)),
        ).with_result(last).with_edge(
            update,
            last,
            QueryGraphDependencyView::ProjectedDataSinkDependency(
                model.primary_identifier,
                RowSink::ExactlyOneRecordQueryFilter,
                Some(record_to_update()),
            ),
        )
    }
}

/// Adds an update of one record to the graph, with its nested writes and the reads that
/// accompany it.
///
/// An error in the arguments or in the entries of the data leaves the graph as it was. On a
/// later error the graph holds what was built until then, and is to be discarded.
/// `request_now` is the time of the request, for the fields that hold the time of the last
/// update.
pub fn update_record(
    graph: &mut QueryGraph,
    query_schema: &QuerySchema,
    model: Model,
    field: ParsedField,
    request_now: DateTime,
) -> (r: Result<(), QueryGraphBuilderError>)
    requires
        old(graph)@.wf(),
    ensures
        final(graph)@.wf(),
        r is Ok && old(graph)@.acyclic() ==> final(graph)@.acyclic(),
        update_request(field@) is Err || sort_entries(
            model@,
            update_request(field@)->Ok_0.data_map,
        ) is Err ==> final(graph)@ == old(graph)@,
        match update_record_error(query_schema@, model@, field@) {
            None => r is Ok && final(graph)@ == update_record_graph(
                old(graph)@,
                query_schema@,
                model@,
                update_request(field@)->Ok_0,
                request_now,
            ),
            Some(error) => r is Err && r->Err_0@ == error,
        },
{
    let ghost request = field@;
    let ParsedField { name, alias, arguments, nested_fields } = field;
    let mut arguments = arguments;

    // "where"
    let where_arg = match lookup(&mut arguments, "where") {
        Some(argument) => argument,
        None => {
            return Err(
                QueryGraphBuilderError::InputError(
                    String::from_str("Expected the argument `where` to be present."),
                ),
            );
        },
    };
    let filter = where_arg.value.try_into_filter()?;

    // "data"
    let data_argument = match lookup(&mut arguments, "data") {
        Some(argument) => argument,
        None => {
            return Err(
                QueryGraphBuilderError::InputError(
                    String::from_str("Expected the argument `data` to be present."),
                ),
            );
        },
    };
    let data_map = data_argument.value.try_into_map()?;
    let field = ParsedField { name, alias, arguments, nested_fields };

    let can_use_atomic_update = can_use_atomic_update(query_schema, &model, &data_map, &field);

    let update_node = update_record_node(
        graph,
        query_schema,
        filter.clone(),
        model.clone(),
        data_map,
        Some(&field),
        request_now,
    )?;

    if !can_use_atomic_update && (!query_schema.has_capability(
        ConnectorCapability::UpdateReturning,
    ) || query_schema.relation_mode().is_prisma()) {
        let read_parent_node = graph.create_node(
            Node::Query(
                read_id_infallible(
                    &model.name,
                    model.shard_aware_primary_identifier(),
                    filter.clone(),
                ),
            ),
        );

        graph.create_edge(
            &read_parent_node,
            &update_node,
            QueryGraphDependency::ProjectedDataSinkDependency(
                model.shard_aware_primary_identifier(),
                RowSink::AllUpdateRecordSelectors,
                Some(
                    DataExpectation::non_empty_rows(
                        DataDependencyError::MissingRecord(
                            MissingRecord { operation: DataOperation::Update },
                        ),
                    ),
                ),
            ),
        )?;
    }
    // If the update can be done in a single operation (which includes getting the result back),
    // then make that node the result node.

    if can_use_atomic_update {
        graph.add_result_node(&update_node);

        let check_node = graph.create_node(Node::Empty);

        graph.create_edge(
            &update_node,
            &check_node,
            QueryGraphDependency::ProjectedDataDependency(
                model.shard_aware_primary_identifier(),
                Transform::Identity,
                Some(
                    DataExpectation::non_empty_rows(
                        DataDependencyError::MissingRecord(
                            MissingRecord { operation: DataOperation::Update },
                        ),
                    ),
                ),
            ),
        )?;
        // Otherwise, perform the update, and then do an additional read.
    } else {
        graph.flag_transactional();

        let read_query = find_unique(field, &model)?;
        let read_node = graph.create_node(Node::Query(Query::Read(read_query)));

        graph.add_result_node(&read_node);

        graph.create_edge(
            &update_node,
            &read_node,
            QueryGraphDependency::ProjectedDataSinkDependency(
                model.shard_aware_primary_identifier(),
                RowSink::ExactlyOneRecordQueryFilter,
                Some(
                    DataExpectation::non_empty_rows(
                        DataDependencyError::MissingRecord(
                            MissingRecord { operation: DataOperation::Update },
                        ),
                    ),
                ),
            ),
        )?;
    }

    proof {
        if old(graph)@.acyclic() {
            lemma_update_record_acyclic(old(graph)@, query_schema@, model@, request, request_now);
        }
    }
    Ok(())
}

/// What the caller of [`update_many_record_node`] may add to the update node.
#[derive(Debug, PartialEq, Eq)]
pub struct UpdateManyRecordNodeOptionals {
    pub name: Option<String>,
    pub nested_field_selection: Option<ParsedObject>,
    pub limit: Option<usize>,
}

/// The mathematical model of an [`UpdateManyRecordNodeOptionals`].
pub struct UpdateManyRecordNodeOptionalsView {
    pub name: Option<Seq<char>>,
    pub nested_field_selection: Option<Seq<crate::document::FieldPairView>>,
    pub limit: Option<usize>,
}

impl View for UpdateManyRecordNodeOptionals {
    type V = UpdateManyRecordNodeOptionalsView;

    open spec fn view(&self) -> UpdateManyRecordNodeOptionalsView {
        UpdateManyRecordNodeOptionalsView {
            name: self.name.deep_view(),
            nested_field_selection: self.nested_field_selection.deep_view(),
            limit: self.limit,
        }
    }
}

/// The node that updates all records which pass `filter`.
///
/// Its name is empty where none is given. Where a selection is given, the node hands back of
/// each updated record what the selection asks for.
pub open spec fn update_many_node(
    filter: FilterView,
    model: ModelView,
    args: Seq<FieldValueView>,
    additional_args: UpdateManyRecordNodeOptionalsView,
) -> NodeView {
    NodeView::Query(
        QueryView::Write(
            WriteQueryView::UpdateManyRecords(
                UpdateManyRecordsView {
                    name: match additional_args.name {
                        Some(name) => name,
                        None => Seq::empty(),
                    },
                    model: model.name,
                    record_filter: RecordFilterView { filter, selectors: None },
                    args,
                    selected_fields: match additional_args.nested_field_selection {
                        Some(fields) => Some(
                            UpdateManyRecordsFieldsView {
                                fields: selected_scalars(fields, model),
                                order: selection_order(fields),
                                nested: nested_reads(fields),
                            },
                        ),
                        None => None,
                    },
                    limit: additional_args.limit,
                },
            ),
        ),
    )
}

/// The graph, transactional, with the update node as its next node and behind it the nested
/// writes.
pub open spec fn update_many_record_node_graph(
    graph: QueryGraphView,
    filter: FilterView,
    model: ModelView,
    data_map: Seq<ParsedInputFieldView>,
    additional_args: UpdateManyRecordNodeOptionalsView,
    request_now: DateTime,
) -> QueryGraphView {
    let sorted = sort_entries(model, data_map)->Ok_0;
    nested_writes_graph(
        graph.flagged().with_node(update_many_node(filter, model, with_datetimes(sorted.args, model.updated_at_fields, request_now), additional_args)),
        NodeRef { node_ix: graph.nodes.len() as usize },
        sorted.nested,
    )
}

/// Adds the node that updates all records which pass `filter`, and behind it the writes nested
/// in the data.
///
/// The handle of the update node is returned. The graph is transactional from then on, also
/// where the build fails; if the data cannot be sorted, nothing else changes in the graph.
/// `request_now` is the time of the request, for the fields that hold the time of the last
/// update.
pub fn update_many_record_node(
    graph: &mut QueryGraph,
    query_schema: &QuerySchema,
    filter: Filter,
    model: Model,
    data_map: ParsedInputMap,
    additional_args: UpdateManyRecordNodeOptionals,
    request_now: DateTime,
) -> (r: Result<NodeRef, QueryGraphBuilderError>)
    requires
        old(graph)@.wf(),
    ensures
        final(graph)@.wf(),
        final(graph)@.result_node == old(graph)@.result_node,
        final(graph)@.transactional,
        r is Ok ==> final(graph)@.contains(r->Ok_0),
        r is Ok && old(graph)@.acyclic() ==> final(graph)@.acyclic(),
        sort_entries(model@, data_map@) is Err ==> final(graph)@ == old(graph)@.flagged(),
        match write_data_error(model@, data_map@) {
            None => r is Ok && r->Ok_0.node_ix == old(graph)@.nodes.len() && final(graph)@
                == update_many_record_node_graph(
                old(graph)@,
                filter@,
                model@,
                data_map@,
                additional_args@,
                request_now,
            ),
            Some(error) => r is Err && r->Err_0@ == error,
        },
{
    let ghost given = (filter@, data_map@, additional_args@);
    graph.flag_transactional();

    let record_filter = RecordFilter::from_filter(filter);
    let update_args = WriteArgsParser::from(&model, data_map)?;
    let WriteArgsParser { args, nested } = update_args;
    let mut args = args;

    args.update_datetimes(&model, request_now);
    let UpdateManyRecordNodeOptionals { name, nested_field_selection, limit } = additional_args;

    let selected_fields = match nested_field_selection {
        Some(nested_fields) => Some(
            UpdateManyRecordsFields {
                fields: collect_selected_scalars(&nested_fields.fields, &model),
                order: collect_selection_order(&nested_fields.fields),
                nested: collect_nested_reads(&nested_fields.fields),
            },
        ),
        None => None,
    };

    let update_many = UpdateManyRecords {
        name: match name {
            Some(name) => name,
            None => String::new(),
        },
        model: model.name.clone(),
        record_filter,
        args,
        selected_fields,
        limit,
    };

    let update_many_node = graph.create_node(
        Node::Query(Query::Write(WriteQuery::UpdateManyRecords(update_many))),
    );

    connect_nested_writes(graph, update_many_node, nested)?;

    proof {
        lemma_update_many_record_node_grown(old(graph)@, given.0, model@, given.1, given.2, request_now);
        if old(graph)@.acyclic() {
            graph@.lemma_grown_acyclic(old(graph)@);
        }
    }
    Ok(update_many_node)
}

/// What a request to update many records holds: the filter of the records, the most that may
/// be updated, the data, and the request without the arguments that held them.
pub struct UpdateManyRequestView {
    pub filter: FilterView,
    pub limit: Option<usize>,
    pub data_map: Seq<ParsedInputFieldView>,
    pub rest: ParsedFieldView,
}

/// The filter of a write on many records: what the first `where` argument holds, and the
/// filter that every record passes where there is none.
pub open spec fn filter_of(arguments: Seq<ParsedArgumentView>) -> Result<
    FilterView,
    QueryGraphBuilderErrorView,
> {
    match argument_named(arguments, "where"@) {
        Some(selector) => selector.value.as_filter(),
        None => Ok(empty_filter()),
    }
}

/// Takes a request to update many records apart.
///
/// The error is that of the first argument that does not hold what it should: `where`, then
/// `limit`, then `data`.
pub open spec fn update_many_request(field: ParsedFieldView) -> Result<
    UpdateManyRequestView,
    QueryGraphBuilderErrorView,
> {
    let without_where = without_argument(field.arguments, "where"@);
    let without_limit = without_argument(without_where, "limit"@);
    match filter_of(field.arguments) {
        Err(error) => Err(error),
        Ok(filter) => match limit_of(argument_named(without_where, "limit"@)) {
            Err(error) => Err(error),
            Ok(limit) => match data_of(without_limit) {
                Err(error) => Err(error),
                Ok(data_map) => Ok(
                    UpdateManyRequestView {
                        filter,
                        limit,
                        data_map,
                        rest: ParsedFieldView {
                            arguments: without_argument(without_limit, "data"@),
                            ..field
                        },
                    },
                ),
            },
        },
    }
}

/// What an update of many records for `request` adds to its node: the request's name and
/// limit, and its selection where the caller wants the updated records back.
pub open spec fn update_many_optionals(
    request: UpdateManyRequestView,
    with_field_selection: bool,
) -> UpdateManyRecordNodeOptionalsView {
    UpdateManyRecordNodeOptionalsView {
        name: Some(request.rest.name),
        nested_field_selection: if with_field_selection {
            request.rest.nested_fields
        } else {
            None
        },
        limit: request.limit,
    }
}

/// The error with which the build of an update of many records ends, if it does: that of
/// taking the request apart, else that of its data.
pub open spec fn update_many_records_error(model: ModelView, field: ParsedFieldView) -> Option<
    QueryGraphBuilderErrorView,
> {
    match update_many_request(field) {
        Err(error) => Some(error),
        Ok(request) => write_data_error(model, request.data_map),
    }
}

/// The graph with the update of many records that `request` asks for; it is transactional.
///
/// Where the database enforces relational integrity, the update node carries the request's
/// filter. Where the query layer does, a read of the identifiers of the records that pass the
/// filter comes first; the update node then carries the filter that every record passes, and
/// an edge without expectation narrows it to the rows of the read.
pub open spec fn update_many_records_graph(
    graph: QueryGraphView,
    query_schema: QuerySchemaView,
    model: ModelView,
    with_field_selection: bool,
    request: UpdateManyRequestView,
    request_now: DateTime,
) -> QueryGraphView {
    let additional_args = update_many_optionals(request, with_field_selection);
    if query_schema.relation_mode.spec_uses_foreign_keys() {
        update_many_record_node_graph(
            graph.flagged(),
            request.filter,
            model,
            request.data_map,
            additional_args,
            request_now,
        )
    } else {
        let pre_read = NodeRef { node_ix: graph.nodes.len() as usize };
        let update_many = NodeRef { node_ix: (graph.nodes.len() + 1) as usize };
        update_many_record_node_graph(
            graph.flagged().with_node(
                NodeView::Query(
                    read_ids_query(model.name, model.primary_identifier, request.filter),
                ),
            ),
            empty_filter(),
            model,
            request.data_map,
            additional_args,
            request_now,
        ).with_edge(
            pre_read,
            update_many,
            QueryGraphDependencyView::ProjectedDataDependency(
                model.primary_identifier,
                Transform::UpdateManyFilter,
                None,
            ),
        )
    }
}

/// Adds an update of many records to the graph.
///
/// The graph is transactional from then on. An error in the arguments changes nothing else
/// in it. On a later error it holds what was built until then, and is to be discarded.
/// `request_now` is the time of the request, for the fields that hold the time of the last
/// update.
pub fn update_many_records(
    graph: &mut QueryGraph,
    query_schema: &QuerySchema,
    model: Model,
    with_field_selection: bool,
    field: ParsedField,
    request_now: DateTime,
) -> (r: Result<(), QueryGraphBuilderError>)
    requires
        old(graph)@.wf(),
    ensures
        final(graph)@.wf(),
        final(graph)@.transactional,
        r is Ok && old(graph)@.acyclic() ==> final(graph)@.acyclic(),
        update_many_request(field@) is Err ==> final(graph)@ == old(graph)@.flagged(),
        match update_many_records_error(model@, field@) {
            None => r is Ok && final(graph)@ == update_many_records_graph(
                old(graph)@,
                query_schema@,
                model@,
                with_field_selection,
                update_many_request(field@)->Ok_0,
                request_now,
            ),
            Some(error) => r is Err && r->Err_0@ == error,
        },
{
    graph.flag_transactional();

    let ghost request = field@;
    let ParsedField { name, alias, arguments, nested_fields } = field;
    let mut arguments = arguments;

    // "where"
    let filter = match lookup(&mut arguments, "where") {
        Some(where_arg) => where_arg.value.try_into_filter()?,
        None => Filter::empty(),
    };

    // "limit"
    let limit = validate_limit(lookup(&mut arguments, "limit"))?;

    // "data"
    let data_argument = match lookup(&mut arguments, "data") {
        Some(argument) => argument,
        None => {
            return Err(
                QueryGraphBuilderError::InputError(
                    String::from_str("Expected the argument `data` to be present."),
                ),
            );
        },
    };
    let data_map = data_argument.value.try_into_map()?;

    let additional_args = UpdateManyRecordNodeOptionals {
        name: Some(name),
        nested_field_selection: if with_field_selection {
            nested_fields
        } else {
            None
        },
        limit,
    };

    if query_schema.relation_mode().uses_foreign_keys() {
        match update_many_record_node(graph, query_schema, filter, model, data_map, additional_args, request_now) {
            Ok(_) => {},
            Err(error) => {
                return Err(error);
            },
        }
    } else {
        let pre_read_node = graph.create_node(
            Node::Query(
                read_ids_infallible(&model.name, model.shard_aware_primary_identifier(), filter),
            ),
        );
        let identifier = model.shard_aware_primary_identifier();
        let update_many_node = match update_many_record_node(
            graph,
            query_schema,
            Filter::empty(),
            model,
            data_map,
            additional_args,
            request_now,
        ) {
            Ok(node) => node,
            Err(error) => {
                return Err(error);
            },
        };

        graph.create_edge(
            &pre_read_node,
            &update_many_node,
            QueryGraphDependency::ProjectedDataDependency(
                identifier,
                Transform::UpdateManyFilter,
                None,
            ),
        )?;
    }

    proof {
        lemma_update_many_records_grown(
            old(graph)@,
            query_schema@,
            model@,
            with_field_selection,
            request,
            request_now,
        );
        if old(graph)@.acyclic() {
            graph@.lemma_grown_acyclic(old(graph)@);
        }
    }
    Ok(())
}

/// The number of operations nested under all relation fields together.
pub open spec fn nested_operation_count(nested: Seq<NestedWriteView>) -> nat
    decreases nested.len(),
{
    if nested.len() == 0 {
        0
    } else {
        nested_operation_count(nested.drop_last()) + nested.last().operations.len()
    }
}

/// Nested writes add two operations to the graph for each operation nested, whatever the
/// graph, and leave its result node alone.
pub proof fn lemma_nested_writes_size(
    graph: QueryGraphView,
    parent: NodeRef,
    nested: Seq<NestedWriteView>,
)
    ensures
        ({
            let built = nested_writes_graph(graph, parent, nested);
            &&& built.nodes.len() == graph.nodes.len() + 2 * nested_operation_count(nested)
            &&& built.result_node == graph.result_node
            &&& graph.transactional ==> built.transactional
            &&& built.query_count() == graph.query_count() + 2 * nested_operation_count(nested)
        }),
    decreases nested.len(),
{
    if nested.len() > 0 {
        lemma_nested_writes_size(graph, parent, nested.drop_last());
        lemma_nested_operations_size(
            nested_writes_graph(graph, parent, nested.drop_last()),
            parent,
            nested.last().relation_field,
            nested.last().operations,
        );
    }
}

/// The graph grows by nested writes.
pub proof fn lemma_nested_writes_grown(
    graph: QueryGraphView,
    parent: NodeRef,
    nested: Seq<NestedWriteView>,
)
    requires
        graph.nodes.len() + 2 * nested_operation_count(nested) <= usize::MAX,
        graph.contains(parent),
    ensures
        nested_writes_graph(graph, parent, nested).grown_from(graph),
    decreases nested.len(),
{
    if nested.len() > 0 {
        let before = nested_writes_graph(graph, parent, nested.drop_last());
        lemma_nested_writes_size(graph, parent, nested.drop_last());
        lemma_nested_writes_grown(graph, parent, nested.drop_last());
        lemma_nested_operations_grown(
            before,
            parent,
            nested.last().relation_field,
            nested.last().operations,
        );
        nested_writes_graph(graph, parent, nested).lemma_grown_transitive(before, graph);
    }
}

/// Data in which no entry is named like a relation field holds no nested writes.
pub proof fn lemma_no_relation_no_nested(model: ModelView, data_map: Seq<ParsedInputFieldView>)
    requires
        !names_relation(model, data_map),
        sort_entries(model, data_map) is Ok,
    ensures
        sort_entries(model, data_map)->Ok_0.nested.len() == 0,
    decreases data_map.len(),
{
    if data_map.len() > 0 {
        assert(!names_relation(model, data_map.drop_last())) by {
            if names_relation(model, data_map.drop_last()) {
                let i = choose|i: int|
                    0 <= i < data_map.drop_last().len() && model.has_relation(
                        (#[trigger] data_map.drop_last()[i]).name,
                    );
                assert(model.has_relation(data_map[i].name));
            }
        }
        lemma_no_relation_no_nested(model, data_map.drop_last());
        assert(!model.has_relation(data_map[data_map.len() - 1].name));
    }
}

/// An update of one record adds exactly one operation to the graph if it is atomic, and at
/// least two if it is not.
pub proof fn lemma_update_record_operations(
    graph: QueryGraphView,
    query_schema: QuerySchemaView,
    model: ModelView,
    field: ParsedFieldView,
    request_now: DateTime,
)
    requires
        update_record_error(query_schema, model, field) is None,
    ensures
        ({
            let request = update_request(field)->Ok_0;
            let built = update_record_graph(graph, query_schema, model, request, request_now);
            let atomic = atomic_update(query_schema, model, request.data_map, request.rest);
            &&& atomic ==> built.query_count() == graph.query_count() + 1
            &&& !atomic ==> built.query_count() >= graph.query_count() + 2
        }),
{
    let request = update_request(field)->Ok_0;
    let sorted = sort_entries(model, request.data_map)->Ok_0;
    let update = update_node(query_schema, request.filter, model, with_datetimes(sorted.args, model.updated_at_fields, request_now), Some(request.rest));
    let parent = NodeRef { node_ix: graph.nodes.len() as usize };
    let updated = update_record_node_graph(
        graph,
        query_schema,
        request.filter,
        model,
        request.data_map,
        Some(request.rest),
        request_now,
    );
    lemma_count_push(graph.nodes, update);
    lemma_nested_writes_size(graph.with_node(update), parent, sorted.nested);
    if atomic_update(query_schema, model, request.data_map, request.rest) {
        lemma_no_relation_no_nested(model, request.data_map);
    }
    let read = NodeView::Query(
        read_id_query(model.name, model.primary_identifier, request.filter),
    );
    lemma_count_push(updated.nodes, read);
    let atomic = atomic_update(query_schema, model, request.data_map, request.rest);
    let read_first = if reads_before_update(query_schema, atomic) {
        updated.with_node(read)
    } else {
        updated
    };
    lemma_count_push(read_first.nodes, NodeView::Empty);
    lemma_count_push(
        read_first.nodes,
        NodeView::Query(QueryView::Read(find_unique_query(request.rest, model)->Ok_0)),
    );
}

/// The graph grows by an update node and the writes nested behind it.
pub proof fn lemma_update_record_node_grown(
    graph: QueryGraphView,
    query_schema: QuerySchemaView,
    filter: FilterView,
    model: ModelView,
    data_map: Seq<ParsedInputFieldView>,
    field: Option<ParsedFieldView>,
    request_now: DateTime,
)
    requires
        update_record_node_graph(graph, query_schema, filter, model, data_map, field, request_now).nodes.len()
            <= usize::MAX,
    ensures
        ({
            let built = update_record_node_graph(
                graph,
                query_schema,
                filter,
                model,
                data_map,
                field,
                request_now,
            );
            &&& built.grown_from(graph)
            &&& built.nodes.len() > graph.nodes.len()
            &&& built.result_node == graph.result_node
        }),
{
    let sorted = sort_entries(model, data_map)->Ok_0;
    let with_update = graph.with_node(update_node(query_schema, filter, model, with_datetimes(sorted.args, model.updated_at_fields, request_now), field));
    let parent = NodeRef { node_ix: graph.nodes.len() as usize };
    lemma_nested_writes_size(with_update, parent, sorted.nested);
    lemma_nested_writes_grown(with_update, parent, sorted.nested);
    nested_writes_graph(with_update, parent, sorted.nested).lemma_grown_transitive(
        with_update,
        graph,
    );
}

/// An update of one record leaves a graph without cycles without cycles.
pub proof fn lemma_update_record_acyclic(
    graph: QueryGraphView,
    query_schema: QuerySchemaView,
    model: ModelView,
    field: ParsedFieldView,
    request_now: DateTime,
)
    requires
        graph.wf(),
        graph.acyclic(),
        update_record_error(query_schema, model, field) is None,
        update_record_graph(
            graph,
            query_schema,
            model,
            update_request(field)->Ok_0,
            request_now,
        ).nodes.len() <= usize::MAX,
    ensures
        update_record_graph(graph, query_schema, model, update_request(field)->Ok_0, request_now).acyclic(),
{
    let request = update_request(field)->Ok_0;
    let update = NodeRef { node_ix: graph.nodes.len() as usize };
    let updated = update_record_node_graph(
        graph,
        query_schema,
        request.filter,
        model,
        request.data_map,
        Some(request.rest),
        request_now,
    );
    lemma_update_record_node_grown(
        graph,
        query_schema,
        request.filter,
        model,
        request.data_map,
        Some(request.rest),
        request_now,
    );
    updated.lemma_grown_acyclic(graph);
    updated.lemma_grown_wf(graph);
    let atomic = atomic_update(query_schema, model, request.data_map, request.rest);
    let read_first = if reads_before_update(query_schema, atomic) {
        let read_parent = NodeRef { node_ix: updated.nodes.len() as usize };
        let with_read = updated.with_node(
            NodeView::Query(read_id_query(model.name, model.primary_identifier, request.filter)),
        );
        assert(with_read.grown_from(updated));
        with_read.lemma_grown_acyclic(updated);
        with_read.lemma_grown_wf(updated);
        let dependency = QueryGraphDependencyView::ProjectedDataSinkDependency(
            model.primary_identifier,
            RowSink::AllUpdateRecordSelectors,
            Some(record_to_update()),
        );
        with_read.lemma_edge_from_source_acyclic(read_parent, update, dependency);
        with_read.with_edge(read_parent, update, dependency)
    } else {
        updated
    };
    assert(read_first.wf());
    let built = update_record_graph(graph, query_schema, model, request, request_now);
    assert(built.grown_from(read_first));
    built.lemma_grown_acyclic(read_first);
}

/// The graph grows by the node of an update of many records and the writes nested behind it.
pub proof fn lemma_update_many_record_node_grown(
    graph: QueryGraphView,
    filter: FilterView,
    model: ModelView,
    data_map: Seq<ParsedInputFieldView>,
    additional_args: UpdateManyRecordNodeOptionalsView,
    request_now: DateTime,
)
    requires
        update_many_record_node_graph(graph, filter, model, data_map, additional_args, request_now).nodes.len()
            <= usize::MAX,
    ensures
        update_many_record_node_graph(graph, filter, model, data_map, additional_args, request_now).grown_from(
            graph,
        ),
{
    let sorted = sort_entries(model, data_map)->Ok_0;
    let base = graph.flagged().with_node(
        update_many_node(filter, model, with_datetimes(sorted.args, model.updated_at_fields, request_now), additional_args),
    );
    let parent = NodeRef { node_ix: graph.nodes.len() as usize };
    lemma_nested_writes_size(base, parent, sorted.nested);
    lemma_nested_writes_grown(base, parent, sorted.nested);
    nested_writes_graph(base, parent, sorted.nested).lemma_grown_transitive(base, graph);
}

/// The graph grows by an update of many records.
pub proof fn lemma_update_many_records_grown(
    graph: QueryGraphView,
    query_schema: QuerySchemaView,
    model: ModelView,
    with_field_selection: bool,
    field: ParsedFieldView,
    request_now: DateTime,
)
    requires
        update_many_records_graph(
            graph,
            query_schema,
            model,
            with_field_selection,
            update_many_request(field)->Ok_0,
            request_now,
        ).nodes.len() <= usize::MAX,
    ensures
        update_many_records_graph(
            graph,
            query_schema,
            model,
            with_field_selection,
            update_many_request(field)->Ok_0,
            request_now,
        ).grown_from(graph),
{
    let request = update_many_request(field)->Ok_0;
    let additional_args = update_many_optionals(request, with_field_selection);
    let sorted = sort_entries(model, request.data_map)->Ok_0;
    if query_schema.relation_mode.spec_uses_foreign_keys() {
        let base = graph.flagged().flagged().with_node(
            update_many_node(request.filter, model, with_datetimes(sorted.args, model.updated_at_fields, request_now), additional_args),
        );
        let parent = NodeRef { node_ix: graph.nodes.len() as usize };
        lemma_nested_writes_size(base, parent, sorted.nested);
        lemma_nested_writes_grown(base, parent, sorted.nested);
        nested_writes_graph(base, parent, sorted.nested).lemma_grown_transitive(base, graph);
    } else {
        let with_read = graph.flagged().with_node(
            NodeView::Query(read_ids_query(model.name, model.primary_identifier, request.filter)),
        );
        let base = with_read.flagged().with_node(
            update_many_node(empty_filter(), model, with_datetimes(sorted.args, model.updated_at_fields, request_now), additional_args),
        );
        let parent = NodeRef { node_ix: with_read.nodes.len() as usize };
        lemma_nested_writes_size(base, parent, sorted.nested);
        lemma_nested_writes_grown(base, parent, sorted.nested);
        let nested = nested_writes_graph(base, parent, sorted.nested);
        nested.lemma_grown_transitive(base, graph);
    }
}

/// Nested writes add no edge that could leave its target without work.
pub proof fn lemma_nested_writes_expect_rows(
    graph: QueryGraphView,
    parent: NodeRef,
    nested: Seq<NestedWriteView>,
)
    requires
        graph.expects_rows(),
    ensures
        nested_writes_graph(graph, parent, nested).expects_rows(),
    decreases nested.len(),
{
    if nested.len() > 0 {
        lemma_nested_writes_expect_rows(graph, parent, nested.drop_last());
        lemma_nested_operations_expect_rows(
            nested_writes_graph(graph, parent, nested.drop_last()),
            parent,
            nested.last().relation_field,
            nested.last().operations,
        );
    }
}

/// An update of one record adds no edge that could leave its target without work: every node
/// of its graph runs, or the execution fails.
pub proof fn lemma_update_record_expects_rows(
    graph: QueryGraphView,
    query_schema: QuerySchemaView,
    model: ModelView,
    field: ParsedFieldView,
    request_now: DateTime,
)
    requires
        graph.expects_rows(),
        update_record_error(query_schema, model, field) is None,
    ensures
        update_record_graph(
            graph,
            query_schema,
            model,
            update_request(field)->Ok_0,
            request_now,
        ).expects_rows(),
{
    let request = update_request(field)->Ok_0;
    let sorted = sort_entries(model, request.data_map)->Ok_0;
    let update = NodeRef { node_ix: graph.nodes.len() as usize };
    let with_update = graph.with_node(
        update_node(query_schema, request.filter, model, with_datetimes(sorted.args, model.updated_at_fields, request_now), Some(request.rest)),
    );
    lemma_nested_writes_expect_rows(with_update, update, sorted.nested);
    let updated = nested_writes_graph(with_update, update, sorted.nested);
    let built = update_record_graph(graph, query_schema, model, request, request_now);
    assert forall|i: int| 0 <= i < built.edges.len() implies !(
    #[trigger] built.edges[i]).dependency.elides_on_no_rows() by {
        if i < updated.edges.len() {
            assert(built.edges[i] == updated.edges[i]);
        }
    }
}

/// An update of many records adds no edge that could leave its target without work.
pub proof fn lemma_update_many_records_expects_rows(
    graph: QueryGraphView,
    query_schema: QuerySchemaView,
    model: ModelView,
    with_field_selection: bool,
    field: ParsedFieldView,
    request_now: DateTime,
)
    requires
        graph.expects_rows(),
        update_many_records_error(model, field) is None,
    ensures
        update_many_records_graph(
            graph,
            query_schema,
            model,
            with_field_selection,
            update_many_request(field)->Ok_0,
            request_now,
        ).expects_rows(),
{
    let request = update_many_request(field)->Ok_0;
    let additional_args = update_many_optionals(request, with_field_selection);
    let sorted = sort_entries(model, request.data_map)->Ok_0;
    if query_schema.relation_mode.spec_uses_foreign_keys() {
        let base = graph.flagged().flagged().with_node(
            update_many_node(request.filter, model, with_datetimes(sorted.args, model.updated_at_fields, request_now), additional_args),
        );
        lemma_nested_writes_expect_rows(
            base,
            NodeRef { node_ix: graph.nodes.len() as usize },
            sorted.nested,
        );
    } else {
        let with_read = graph.flagged().with_node(
            NodeView::Query(read_ids_query(model.name, model.primary_identifier, request.filter)),
        );
        let base = with_read.flagged().with_node(
            update_many_node(empty_filter(), model, with_datetimes(sorted.args, model.updated_at_fields, request_now), additional_args),
        );
        let parent = NodeRef { node_ix: with_read.nodes.len() as usize };
        lemma_nested_writes_expect_rows(base, parent, sorted.nested);
        let nested = nested_writes_graph(base, parent, sorted.nested);
        let built = update_many_records_graph(
            graph,
            query_schema,
            model,
            with_field_selection,
            request,
            request_now,
        );
        assert forall|i: int| 0 <= i < built.edges.len() implies !(
        #[trigger] built.edges[i]).dependency.elides_on_no_rows() by {
            if i < nested.edges.len() {
                assert(built.edges[i] == nested.edges[i]);
            }
        }
    }
}

} // verus!
