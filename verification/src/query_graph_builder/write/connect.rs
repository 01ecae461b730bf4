//! Connecting records across a many-to-many relation.

use crate::error::{DataDependencyError, IncompleteConnectInput, QueryGraphBuilderError};
use crate::query_ast::{ConnectRecords, ConnectRecordsView, Query, QueryView, WriteQuery, WriteQueryView};
use crate::query_graph::{
    lemma_count_push, DataExpectation, Node, NodeRef, NodeView, QueryGraph, QueryGraphDependency,
    QueryGraphDependencyView, QueryGraphView, RowExpectation, Transform,
};
use crate::schema::{RelationField, RelationFieldView};
use vstd::prelude::*;

verus! {

/// A connect across `relation_field` that does not know its parent and children yet.
pub open spec fn connect_node(relation_field: RelationFieldView) -> NodeView {
    NodeView::Query(
        QueryView::Write(
            WriteQueryView::ConnectRecords(
                ConnectRecordsView { parent_id: None, child_ids: Seq::empty(), relation_field },
            ),
        ),
    )
}

/// The expectation that exactly as many children are found as are to be connected.
pub open spec fn complete_connect(expected_connects: usize) -> DataExpectation {
    DataExpectation {
        rows: RowExpectation::Exact(expected_connects),
        error: DataDependencyError::IncompleteConnectInput(
            IncompleteConnectInput { expected_rows: expected_connects },
        ),
    }
}

/// The graph with a connect node behind `parent` and `child`.
///
/// The new node comes last. The edge from the parent gives the connect its parent, by the
/// parent model's identifier; the edge from the child, created after it, gives the connect its
/// children, by the child model's identifier, and expects exactly `expected_connects` of them.
/// The graph is transactional.
pub open spec fn connect_records_graph(
    graph: QueryGraphView,
    parent: NodeRef,
    child: NodeRef,
    relation_field: RelationFieldView,
    expected_connects: usize,
) -> QueryGraphView {
    let connect = NodeRef { node_ix: graph.nodes.len() as usize };
    graph.with_node(connect_node(relation_field)).with_edge(
        parent,
        connect,
        QueryGraphDependencyView::ProjectedDataDependency(
            relation_field.model.primary_identifier,
            Transform::ConnectParent,
            None,
        ),
    ).with_edge(
        child,
        connect,
        QueryGraphDependencyView::ProjectedDataDependency(
            relation_field.related_model.primary_identifier,
            Transform::ConnectChildren,
            Some(complete_connect(expected_connects)),
        ),
    ).flagged()
}

/// Adds a connect node behind `parent_node` and `child_node`, for a many-to-many relation.
///
/// Both nodes are taken to produce identifying rows: when they have run, the rows of the
/// parent become the connect's parent and the rows of the child its children. If the child
/// produces another number of rows than `expected_connects`, the connect does not run.
pub fn connect_records_node(
    graph: &mut QueryGraph,
    parent_node: &NodeRef,
    child_node: &NodeRef,
    parent_relation_field: &RelationField,
    expected_connects: usize,
) -> (r: Result<NodeRef, QueryGraphBuilderError>)
    requires
        old(graph)@.wf(),
        old(graph)@.contains(*parent_node),
        old(graph)@.contains(*child_node),
        parent_relation_field@.many_to_many,
    ensures
        r is Ok,
        r->Ok_0.node_ix == old(graph)@.nodes.len(),
        final(graph)@ == connect_records_graph(
            old(graph)@,
            *parent_node,
            *child_node,
            parent_relation_field@,
            expected_connects,
        ),
        final(graph)@.wf(),
        old(graph)@.acyclic() ==> final(graph)@.acyclic(),
{
    let parent_model_id = parent_relation_field.model().shard_aware_primary_identifier();
    let child_model_id = parent_relation_field.related_model().shard_aware_primary_identifier();

    let child_ids = Vec::new();
    let connect = ConnectRecords {
        parent_id: None,
        child_ids,
        relation_field: parent_relation_field.clone(),
    };
    assert(connect.child_ids.deep_view() =~= Seq::empty());

    let connect_node = graph.create_node(Node::Query(Query::Write(WriteQuery::ConnectRecords(connect))));

    // Edge from parent to connect.
    graph.create_edge(
        parent_node,
        &connect_node,
        QueryGraphDependency::ProjectedDataDependency(
            parent_model_id,
            Transform::ConnectParent,
            None,
        ),
    )?;

    // Edge from child to connect.
    graph.create_edge(
        child_node,
        &connect_node,
        QueryGraphDependency::ProjectedDataDependency(
            child_model_id,
            Transform::ConnectChildren,
            Some(
                DataExpectation::exact_row_count(
                    expected_connects,
                    DataDependencyError::IncompleteConnectInput(
                        IncompleteConnectInput { expected_rows: expected_connects },
                    ),
                ),
            ),
        ),
    )?;

    graph.flag_transactional();

    proof {
        lemma_connect_records_grown(
            old(graph)@,
            *parent_node,
            *child_node,
            parent_relation_field@,
            expected_connects,
        );
        if old(graph)@.acyclic() {
            connect_records_graph(
                old(graph)@,
                *parent_node,
                *child_node,
                parent_relation_field@,
                expected_connects,
            ).lemma_grown_acyclic(old(graph)@);
        }
    }
    Ok(connect_node)
}

/// A connect node adds one node and two edges to the graph, and the graph grows by them.
pub proof fn lemma_connect_records_grown(
    graph: QueryGraphView,
    parent: NodeRef,
    child: NodeRef,
    relation_field: RelationFieldView,
    expected_connects: usize,
)
    requires
        graph.nodes.len() < usize::MAX,
        graph.contains(parent),
        graph.contains(child),
    ensures
        connect_records_graph(graph, parent, child, relation_field, expected_connects).grown_from(
            graph,
        ),
{
}

/// A connect node adds no edge that could leave its target without work.
pub proof fn lemma_connect_records_expects_rows(
    graph: QueryGraphView,
    parent: NodeRef,
    child: NodeRef,
    relation_field: RelationFieldView,
    expected_connects: usize,
)
    requires
        graph.expects_rows(),
    ensures
        connect_records_graph(
            graph,
            parent,
            child,
            relation_field,
            expected_connects,
        ).expects_rows(),
{
    let built = connect_records_graph(graph, parent, child, relation_field, expected_connects);
    assert forall|i: int| 0 <= i < built.edges.len() implies !(
    #[trigger] built.edges[i]).dependency.elides_on_no_rows() by {
        if i < graph.edges.len() {
            assert(built.edges[i] == graph.edges[i]);
        }
    }
}

/// A connect node adds one node and two edges to the graph, whatever the graph.
pub proof fn lemma_connect_records_size(
    graph: QueryGraphView,
    parent: NodeRef,
    child: NodeRef,
    relation_field: RelationFieldView,
    expected_connects: usize,
)
    ensures
        ({
            let built = connect_records_graph(
                graph,
                parent,
                child,
                relation_field,
                expected_connects,
            );
            &&& built.nodes.len() == graph.nodes.len() + 1
            &&& built.edges.len() == graph.edges.len() + 2
            &&& built.result_node == graph.result_node
            &&& built.transactional
            &&& built.query_count() == graph.query_count() + 1
        }),
{
    lemma_count_push(graph.nodes, connect_node(relation_field));
}

} // verus!
