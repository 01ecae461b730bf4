//! What holds when the interpreter comes to the nodes that the builders made.

use crate::error::{QueryGraphBuilderErrorView, UserFacingError};
use crate::filter::{empty_filter, RecordFilterView};
use crate::interpreter::{project, ExecutionErrorView, ExecutionView, Prepared, StepView};
use crate::datetime::DateTime;
use crate::document::ParsedFieldView;
use crate::query_ast::{
    with_datetimes,ConnectRecordsView, QueryView, UpdateManyRecordsView, WriteQueryView};
use crate::query_graph_builder::write::utils::read_ids_query;
use crate::value::FieldValueView;
use crate::query_graph::{missing_parent_message, NodeRef, NodeView, QueryGraphView};
use crate::query_graph_builder::write::connect::connect_records_graph;
use crate::query_graph_builder::write::update::{
    atomic_update, lemma_nested_writes_grown, lemma_nested_writes_size,
    lemma_update_record_operations, nested_writes_graph, update_many_node,
    update_many_optionals, update_many_records_error, update_many_records_graph,
    update_many_request, update_record_error, update_record_graph, update_request,
};
use crate::query_graph_builder::write::write_args_parser::sort_entries;
use crate::schema::{ModelView, QuerySchemaView, RelationFieldView};
use vstd::prelude::*;

verus! {

/// A connect runs only with all the children that were to be connected.
///
/// Take a connect node that was built behind `parent` and `child` for `expected_connects`
/// children, and an execution of a graph with the same edges in which both have run and the
/// connect node is untouched. If the child produced another number of rows than expected, the
/// connect fails with the error that reports the expected and the actual number. If it
/// produced as many as expected, the connect runs with exactly these rows as its children and
/// the parent's last row as its parent, unless the parent produced no row: then it fails.
pub proof fn lemma_connect_needs_all_children(
    execution: ExecutionView,
    graph: QueryGraphView,
    parent: NodeRef,
    child: NodeRef,
    relation_field: RelationFieldView,
    expected_connects: usize,
)
    requires
        graph.wf(),
        graph.nodes.len() < usize::MAX,
        graph.contains(parent),
        graph.contains(child),
        execution.wf(),
        ({
            let built = connect_records_graph(
                graph,
                parent,
                child,
                relation_field,
                expected_connects,
            );
            &&& execution.graph.edges == built.edges
            &&& execution.graph.nodes.len() == built.nodes.len()
            &&& execution.graph.nodes[graph.nodes.len() as int] == built.nodes[graph.nodes.len() as int]
        }),
        execution.states[parent.node_ix as int] is Executed,
        execution.states[child.node_ix as int] is Executed,
        execution.outputs[child.node_ix as int]->Some_0.rows().len() <= usize::MAX,
    ensures
        ({
            let connect = graph.nodes.len() as int;
            let parents = project(
                execution.outputs[parent.node_ix as int]->Some_0.rows(),
                relation_field.model.primary_identifier,
            );
            let children = project(
                execution.outputs[child.node_ix as int]->Some_0.rows(),
                relation_field.related_model.primary_identifier,
            );
            &&& children.len() != expected_connects ==> execution.prepare(connect)
                == Prepared::Fail(
                execution.graph.nodes[connect],
                ExecutionErrorView::Expectation(
                    UserFacingError::IncompleteConnect {
                        expected: expected_connects,
                        actual: children.len() as usize,
                    },
                ),
            )
            &&& children.len() == expected_connects && parents.len() > 0 ==> execution.prepare(
                connect,
            ) == Prepared::Run(
                NodeView::Query(
                    QueryView::Write(
                        WriteQueryView::ConnectRecords(
                            ConnectRecordsView {
                                parent_id: Some(parents.last()),
                                child_ids: children,
                                relation_field,
                            },
                        ),
                    ),
                ),
            )
            &&& children.len() == expected_connects && parents.len() == 0 ==> execution.prepare(
                connect,
            ) == Prepared::Fail(
                execution.graph.nodes[connect],
                ExecutionErrorView::Builder(
                    QueryGraphBuilderErrorView::AssertionError(missing_parent_message()),
                ),
            )
        }),
{
    let connect = graph.nodes.len() as int;
    let before = graph.edges.len() as int;
    let built = connect_records_graph(graph, parent, child, relation_field, expected_connects);
    assert(built.edges.len() == before + 2);
    assert forall|i: int| 0 <= i < before implies (#[trigger] execution.graph.edges[i]).target
        != connect by {
        assert(built.edges[i] == graph.edges[i]);
    }
    execution.lemma_edges_elsewhere(connect, before);
    assert(execution.graph.edges[before].source == parent.node_ix);
    assert(execution.graph.edges[before + 1].source == child.node_ix);
    assert(execution.graph.edges[before].target == connect);
    assert(execution.graph.edges[before + 1].target == connect);
    // The parent's edge expects nothing, the child's the number of children.
    assert(execution.violation_at(connect, before) is None);
    assert(execution.first_violation(connect, before + 1) is None);
    assert(execution.first_violation(connect, before + 2) == execution.violation_at(
        connect,
        before + 1,
    ));
    assert(!execution.source_skipped(connect)) by {
        if execution.source_skipped(connect) {
            let i = choose|i: int|
                0 <= i < execution.graph.edges.len() && (#[trigger] execution.graph.edges[i]).target
                    == connect && execution.states[execution.graph.edges[i].source as int] is Skipped;
            assert(i == before || i == before + 1);
        }
    }
    assert(!execution.starved(connect)) by {
        if execution.starved(connect) {
            let i = choose|i: int|
                0 <= i < execution.graph.edges.len() && (#[trigger] execution.graph.edges[i]).target
                    == connect && execution.graph.edges[i].dependency.elides_on_no_rows()
                    && execution.edge_rows(i).len() == 0;
            assert(i == before || i == before + 1);
        }
    }
    // The parent's edge rewrites the node first, the child's edge after it.
    reveal_with_fuel(ExecutionView::rewritten, 3);
}

/// The update of many records that `request` asks for, narrowed to `rows`: its filter admits
/// every record, and its selectors are the rows.
pub open spec fn update_narrowed_to(
    model: ModelView,
    with_field_selection: bool,
    field: ParsedFieldView,
    rows: Seq<Seq<FieldValueView>>,
    request_now: DateTime,
) -> NodeView {
    let request = update_many_request(field)->Ok_0;
    let built = update_many_node(
        empty_filter(),
        model,
        with_datetimes(
            sort_entries(model, request.data_map)->Ok_0.args,
            model.updated_at_fields,
            request_now,
        ),
        update_many_optionals(request, with_field_selection),
    );
    match built {
        NodeView::Query(QueryView::Write(WriteQueryView::UpdateManyRecords(update))) =>
            NodeView::Query(
            QueryView::Write(
                WriteQueryView::UpdateManyRecords(
                    UpdateManyRecordsView {
                        record_filter: RecordFilterView {
                            filter: empty_filter(),
                            selectors: Some(rows),
                        },
                        ..update
                    },
                ),
            ),
        ),
        _ => built,
    }
}

/// Where the query layer enforces relational integrity, an update of many records runs on
/// exactly the records that the read before it found.
///
/// Take the graph that was built for the update, and an execution of a graph with the same
/// edges in which the read has run and the update node is untouched. Then the update runs,
/// whatever the read found, with the filter that admits every record and with the rows of the
/// read, reduced to the model's identifier, as its selectors: the filter of the request
/// plays no part in it any more.
pub proof fn lemma_update_many_runs_on_read_rows(
    execution: ExecutionView,
    graph: QueryGraphView,
    query_schema: QuerySchemaView,
    model: ModelView,
    with_field_selection: bool,
    field: ParsedFieldView,
    request_now: DateTime,
)
    requires
        graph.wf(),
        update_many_records_error(model, field) is None,
        !query_schema.relation_mode.spec_uses_foreign_keys(),
        execution.wf(),
        ({
            let built = update_many_records_graph(
                graph,
                query_schema,
                model,
                with_field_selection,
                update_many_request(field)->Ok_0,
                request_now,
            );
            &&& built.nodes.len() <= usize::MAX
            &&& execution.graph.edges == built.edges
            &&& execution.graph.nodes.len() == built.nodes.len()
            &&& execution.graph.nodes[graph.nodes.len() as int + 1] == built.nodes[graph.nodes.len() as int
                + 1]
        }),
        execution.states[graph.nodes.len() as int] is Executed,
    ensures
        execution.prepare(graph.nodes.len() as int + 1) == Prepared::Run(
            update_narrowed_to(
                model,
                with_field_selection,
                field,
                project(
                    execution.outputs[graph.nodes.len() as int]->Some_0.rows(),
                    model.primary_identifier,
                ),
                request_now,
            ),
        ),
{
    let request = update_many_request(field)->Ok_0;
    let additional_args = update_many_optionals(request, with_field_selection);
    let sorted = sort_entries(model, request.data_map)->Ok_0;
    let read = graph.nodes.len() as int;
    let update = read + 1;
    let with_read = graph.flagged().with_node(
        NodeView::Query(read_ids_query(model.name, model.primary_identifier, request.filter)),
    );
    let base = with_read.flagged().with_node(
        update_many_node(empty_filter(), model, with_datetimes(sorted.args, model.updated_at_fields, request_now), additional_args),
    );
    let parent = NodeRef { node_ix: with_read.nodes.len() as usize };
    lemma_nested_writes_size(base, parent, sorted.nested);
    lemma_nested_writes_grown(base, parent, sorted.nested);
    let nested = nested_writes_graph(base, parent, sorted.nested);
    let built = update_many_records_graph(
        graph,
        query_schema,
        model,
        with_field_selection,
        request,
        request_now,
    );
    let last = nested.edges.len() as int;
    assert(built.edges.len() == last + 1);
    assert(built.nodes[update] == base.nodes[update]);
    assert forall|i: int| 0 <= i < last implies (#[trigger] execution.graph.edges[i]).target
        != update by {
        assert(built.edges[i] == nested.edges[i]);
        if i < base.edges.len() {
            assert(nested.edges[i] == base.edges[i]);
            assert(base.edges[i] == graph.edges[i]);
        }
    }
    execution.lemma_edges_elsewhere(update, last);
    assert(execution.graph.edges[last].source == read);
    assert(execution.graph.edges[last].target == update);
    assert(execution.violation_at(update, last) is None);
    assert(execution.first_violation(update, last + 1) is None);
    assert(!execution.source_skipped(update)) by {
        if execution.source_skipped(update) {
            let i = choose|i: int|
                0 <= i < execution.graph.edges.len() && (#[trigger] execution.graph.edges[i]).target
                    == update && execution.states[execution.graph.edges[i].source as int] is Skipped;
            assert(i == last);
        }
    }
    assert(!execution.starved(update)) by {
        if execution.starved(update) {
            let i = choose|i: int|
                0 <= i < execution.graph.edges.len() && (#[trigger] execution.graph.edges[i]).target
                    == update && execution.graph.edges[i].dependency.elides_on_no_rows()
                    && execution.edge_rows(i).len() == 0;
            assert(i == last);
        }
    }
    assert(execution.rewritten(update, last + 1).1 is None);
}

/// An atomic update of one record is run as exactly one operation; an update that is not
/// atomic as at least two.
///
/// Take the graph that was built for the update on an empty graph, and an execution that has
/// as many operations in its graph, leaves nothing out and ends with a result. An execution
/// of the built graph is such an execution from its start, through every step and every
/// answer of the connector: no edge of the graph can leave its target without work, and steps
/// and answers keep the number of operations. Then the execution has run exactly one
/// operation against the connector if the update is atomic, and at least two if it is not.
pub proof fn lemma_update_runs_one_operation_or_more(
    execution: ExecutionView,
    query_schema: QuerySchemaView,
    model: ModelView,
    field: ParsedFieldView,
    request_now: DateTime,
)
    requires
        update_record_error(query_schema, model, field) is None,
        execution.leaves_nothing_out(),
        execution.graph.query_count() == update_record_graph(
            QueryGraphView::empty(),
            query_schema,
            model,
            update_request(field)->Ok_0,
            request_now,
        ).query_count(),
        execution.step().1 matches StepView::Finished(Ok(_)),
    ensures
        ({
            let request = update_request(field)->Ok_0;
            let atomic = atomic_update(query_schema, model, request.data_map, request.rest);
            &&& atomic ==> execution.executed_operations() == 1
            &&& !atomic ==> execution.executed_operations() >= 2
        }),
{
    lemma_update_record_operations(QueryGraphView::empty(), query_schema, model, field, request_now);
    execution.lemma_all_operations_run();
}

} // verus!
