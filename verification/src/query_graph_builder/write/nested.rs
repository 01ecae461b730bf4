//! Writes on related records, nested in the write of their parent.

use crate::document::{NestedOperation, NestedOperationView};
use crate::error::{QueryGraphBuilderError, QueryGraphBuilderErrorView};
use crate::filter::{Filter, FilterView};
use crate::query_graph::{
    lemma_count_push, Node, NodeRef, NodeView, QueryGraph, QueryGraphDependency,
    QueryGraphDependencyView, QueryGraphView,
};
use crate::query_graph_builder::write::connect::{
    connect_records_graph, connect_records_node, lemma_connect_records_expects_rows,
    lemma_connect_records_size,
};
use crate::query_graph_builder::write::utils::{read_ids_infallible, read_ids_query};
use crate::schema::{RelationField, RelationFieldView};
use vstd::prelude::*;
use vstd::string::*;

verus! {

/// The message of the error for a nested operation other than `connect`.
pub open spec fn unsupported_operation_message() -> Seq<char> {
    "The nested operation is not supported."@
}

/// The message of the error for a nested connect across a relation that has no join table.
pub open spec fn not_many_to_many_message() -> Seq<char> {
    "A nested connect is supported across many-to-many relations only."@
}

/// The error that a nested operation gives rise to, if it does.
pub open spec fn nested_operation_error(
    relation_field: RelationFieldView,
    operation: NestedOperationView,
) -> Option<QueryGraphBuilderErrorView> {
    if operation.name != "connect"@ {
        Some(QueryGraphBuilderErrorView::InputError(unsupported_operation_message()))
    } else if !relation_field.many_to_many {
        Some(QueryGraphBuilderErrorView::InputError(not_many_to_many_message()))
    } else {
        None
    }
}

/// The error of the first nested operation that gives rise to one.
pub open spec fn nested_operations_error(
    relation_field: RelationFieldView,
    operations: Seq<NestedOperationView>,
) -> Option<QueryGraphBuilderErrorView>
    decreases operations.len(),
{
    if operations.len() == 0 {
        None
    } else {
        match nested_operations_error(relation_field, operations.drop_last()) {
            Some(error) => Some(error),
            None => nested_operation_error(relation_field, operations.last()),
        }
    }
}

/// The graph with a nested connect behind `parent`.
///
/// A read of the children that pass one of the selectors is added, to run after the parent;
/// behind parent and read comes a connect that expects as many children as there are selectors.
pub open spec fn nested_connect_graph(
    graph: QueryGraphView,
    parent: NodeRef,
    relation_field: RelationFieldView,
    selectors: Seq<FilterView>,
) -> QueryGraphView {
    let child = NodeRef { node_ix: graph.nodes.len() as usize };
    connect_records_graph(
        graph.with_node(
            NodeView::Query(
                read_ids_query(
                    relation_field.related_model.name,
                    relation_field.related_model.primary_identifier,
                    FilterView::Or(selectors),
                ),
            ),
        ).with_edge(parent, child, QueryGraphDependencyView::ExecutionOrder),
        parent,
        child,
        relation_field,
        selectors.len() as usize,
    )
}

/// The graph with the nested operations behind `parent`, one after the other.
pub open spec fn nested_operations_graph(
    graph: QueryGraphView,
    parent: NodeRef,
    relation_field: RelationFieldView,
    operations: Seq<NestedOperationView>,
) -> QueryGraphView
    decreases operations.len(),
{
    if operations.len() == 0 {
        graph
    } else {
        nested_connect_graph(
            nested_operations_graph(graph, parent, relation_field, operations.drop_last()),
            parent,
            relation_field,
            operations.last().selectors,
        )
    }
}

/// Adds a nested connect behind `parent`.
pub fn nested_connect(
    graph: &mut QueryGraph,
    parent: NodeRef,
    relation_field: &RelationField,
    selectors: Vec<Filter>,
) -> (r: Result<(), QueryGraphBuilderError>)
    requires
        old(graph)@.wf(),
        old(graph)@.contains(parent),
        relation_field@.many_to_many,
    ensures
        r is Ok,
        final(graph)@ == nested_connect_graph(
            old(graph)@,
            parent,
            relation_field@,
            selectors.deep_view(),
        ),
        final(graph)@.wf(),
        final(graph)@.contains(parent),
        old(graph)@.acyclic() ==> final(graph)@.acyclic(),
{
    let ghost chosen = selectors.deep_view();
    let expected_connects = selectors.len();
    let child_model = relation_field.related_model();
    let child_read_query = read_ids_infallible(
        &child_model.name,
        child_model.shard_aware_primary_identifier(),
        Filter::or(selectors),
    );
    let child_node = graph.create_node(Node::Query(child_read_query));

    graph.create_edge(&parent, &child_node, QueryGraphDependency::ExecutionOrder)?;
    connect_records_node(graph, &parent, &child_node, relation_field, expected_connects)?;

    proof {
        lemma_nested_connect_grown(old(graph)@, parent, relation_field@, chosen);
        if old(graph)@.acyclic() {
            graph@.lemma_grown_acyclic(old(graph)@);
        }
    }
    Ok(())
}

/// Adds the writes nested under `relation_field` behind `parent`, in the order given.
///
/// Only `connect` across a many-to-many relation is supported: the first operation that is
/// anything else ends the build with an error.
pub fn connect_nested_query(
    graph: &mut QueryGraph,
    parent: NodeRef,
    relation_field: RelationField,
    operations: Vec<NestedOperation>,
) -> (r: Result<(), QueryGraphBuilderError>)
    requires
        old(graph)@.wf(),
        old(graph)@.contains(parent),
    ensures
        final(graph)@.wf(),
        final(graph)@.contains(parent),
        final(graph)@.result_node == old(graph)@.result_node,
        old(graph)@.transactional ==> final(graph)@.transactional,
        r is Ok && old(graph)@.acyclic() ==> final(graph)@.acyclic(),
        match nested_operations_error(relation_field@, operations.deep_view()) {
            None => r is Ok && final(graph)@ == nested_operations_graph(
                old(graph)@,
                parent,
                relation_field@,
                operations.deep_view(),
            ),
            Some(error) => r is Err && r->Err_0@ == error,
        },
{
    let ghost all = operations.deep_view();
    let ghost items = operations@;
    let connect = String::from_str("connect");
    assert(all.take(0) =~= Seq::empty());
    for operation in it: operations
        invariant
            it.seq() == items,
            all == operations.deep_view(),
            all.len() == items.len(),
            forall|j: int| 0 <= j < items.len() ==> all[j] == items[j]@,
            connect@ == "connect"@,
            graph@.wf(),
            graph@.contains(parent),
            graph@.result_node == old(graph)@.result_node,
            old(graph)@.transactional ==> graph@.transactional,
            nested_operations_error(relation_field@, all.take(it.index() as int)) is None,
            graph@ == nested_operations_graph(
                old(graph)@,
                parent,
                relation_field@,
                all.take(it.index() as int),
            ),
    {
        let ghost done = it.index() as int;
        assert(operation@ == all[done]);
        assert(all.take(done + 1).drop_last() =~= all.take(done));
        if operation.name != connect {
            proof {
                lemma_nested_error_stays(relation_field@, all, done + 1);
            }
            return Err(
                QueryGraphBuilderError::InputError(
                    String::from_str("The nested operation is not supported."),
                ),
            );
        }
        if !relation_field.is_many_to_many() {
            proof {
                lemma_nested_error_stays(relation_field@, all, done + 1);
            }
            return Err(
                QueryGraphBuilderError::InputError(
                    String::from_str(
                        "A nested connect is supported across many-to-many relations only.",
                    ),
                ),
            );
        }
        nested_connect(graph, parent, &relation_field, operation.selectors)?;
    }
    assert(all.take(all.len() as int) =~= all);
    proof {
        lemma_nested_operations_size(old(graph)@, parent, relation_field@, all);
        lemma_nested_operations_grown(old(graph)@, parent, relation_field@, all);
        if old(graph)@.acyclic() {
            graph@.lemma_grown_acyclic(old(graph)@);
        }
    }
    Ok(())
}

/// An error among the first `upto` operations is the error of all operations.
pub proof fn lemma_nested_error_stays(
    relation_field: RelationFieldView,
    operations: Seq<NestedOperationView>,
    upto: int,
)
    requires
        0 <= upto <= operations.len(),
        nested_operations_error(relation_field, operations.take(upto)) is Some,
    ensures
        nested_operations_error(relation_field, operations) == nested_operations_error(
            relation_field,
            operations.take(upto),
        ),
    decreases operations.len() - upto,
{
    if upto < operations.len() {
        assert(operations.take(upto + 1).drop_last() =~= operations.take(upto));
        lemma_nested_error_stays(relation_field, operations, upto + 1);
    } else {
        assert(operations.take(upto) =~= operations);
    }
}

/// A nested connect adds two operations to the graph, whatever the graph: the read of the
/// children and the connect.
pub proof fn lemma_nested_connect_size(
    graph: QueryGraphView,
    parent: NodeRef,
    relation_field: RelationFieldView,
    selectors: Seq<FilterView>,
)
    ensures
        ({
            let built = nested_connect_graph(graph, parent, relation_field, selectors);
            &&& built.nodes.len() == graph.nodes.len() + 2
            &&& built.edges.len() == graph.edges.len() + 3
            &&& built.result_node == graph.result_node
            &&& built.transactional
            &&& built.query_count() == graph.query_count() + 2
        }),
{
    let child = NodeRef { node_ix: graph.nodes.len() as usize };
    let read = NodeView::Query(
        read_ids_query(
            relation_field.related_model.name,
            relation_field.related_model.primary_identifier,
            FilterView::Or(selectors),
        ),
    );
    lemma_count_push(graph.nodes, read);
    lemma_connect_records_size(
        graph.with_node(read).with_edge(parent, child, QueryGraphDependencyView::ExecutionOrder),
        parent,
        child,
        relation_field,
        selectors.len() as usize,
    );
}

/// The graph grows by a nested connect.
pub proof fn lemma_nested_connect_grown(
    graph: QueryGraphView,
    parent: NodeRef,
    relation_field: RelationFieldView,
    selectors: Seq<FilterView>,
)
    requires
        graph.nodes.len() + 2 <= usize::MAX,
        graph.contains(parent),
    ensures
        nested_connect_graph(graph, parent, relation_field, selectors).grown_from(graph),
{
}

/// Nested operations add two operations each to the graph, whatever the graph.
pub proof fn lemma_nested_operations_size(
    graph: QueryGraphView,
    parent: NodeRef,
    relation_field: RelationFieldView,
    operations: Seq<NestedOperationView>,
)
    ensures
        ({
            let built = nested_operations_graph(graph, parent, relation_field, operations);
            &&& built.nodes.len() == graph.nodes.len() + 2 * operations.len()
            &&& built.result_node == graph.result_node
            &&& graph.transactional ==> built.transactional
            &&& built.query_count() == graph.query_count() + 2 * operations.len()
        }),
    decreases operations.len(),
{
    if operations.len() > 0 {
        lemma_nested_operations_size(graph, parent, relation_field, operations.drop_last());
        lemma_nested_connect_size(
            nested_operations_graph(graph, parent, relation_field, operations.drop_last()),
            parent,
            relation_field,
            operations.last().selectors,
        );
    }
}

/// The graph grows by nested operations.
pub proof fn lemma_nested_operations_grown(
    graph: QueryGraphView,
    parent: NodeRef,
    relation_field: RelationFieldView,
    operations: Seq<NestedOperationView>,
)
    requires
        graph.nodes.len() + 2 * operations.len() <= usize::MAX,
        graph.contains(parent),
    ensures
        nested_operations_graph(graph, parent, relation_field, operations).grown_from(graph),
    decreases operations.len(),
{
    if operations.len() > 0 {
        let before = nested_operations_graph(
            graph,
            parent,
            relation_field,
            operations.drop_last(),
        );
        lemma_nested_operations_size(graph, parent, relation_field, operations.drop_last());
        lemma_nested_operations_grown(graph, parent, relation_field, operations.drop_last());
        lemma_nested_connect_grown(before, parent, relation_field, operations.last().selectors);
        nested_operations_graph(
            graph,
            parent,
            relation_field,
            operations,
        ).lemma_grown_transitive(before, graph);
    }
}

/// Nested operations add no edge that could leave its target without work.
pub proof fn lemma_nested_operations_expect_rows(
    graph: QueryGraphView,
    parent: NodeRef,
    relation_field: RelationFieldView,
    operations: Seq<NestedOperationView>,
)
    requires
        graph.expects_rows(),
    ensures
        nested_operations_graph(graph, parent, relation_field, operations).expects_rows(),
    decreases operations.len(),
{
    if operations.len() > 0 {
        let before = nested_operations_graph(
            graph,
            parent,
            relation_field,
            operations.drop_last(),
        );
        lemma_nested_operations_expect_rows(graph, parent, relation_field, operations.drop_last());
        let child = NodeRef { node_ix: before.nodes.len() as usize };
        let with_read = before.with_node(
            NodeView::Query(
                read_ids_query(
                    relation_field.related_model.name,
                    relation_field.related_model.primary_identifier,
                    FilterView::Or(operations.last().selectors),
                ),
            ),
        ).with_edge(parent, child, QueryGraphDependencyView::ExecutionOrder);
        assert forall|i: int| 0 <= i < with_read.edges.len() implies !(
        #[trigger] with_read.edges[i]).dependency.elides_on_no_rows() by {
            if i < before.edges.len() {
                assert(with_read.edges[i] == before.edges[i]);
            }
        }
        lemma_connect_records_expects_rows(
            with_read,
            parent,
            child,
            relation_field,
            operations.last().selectors.len() as usize,
        );
    }
}

} // verus!
