use query_graph::error::{
    DataDependencyError, DataOperation, IncompleteConnectInput, MissingRecord,
    QueryGraphBuilderError, UserFacingError,
};
use query_graph::filter::{Filter, RecordFilter};
use query_graph::query_ast::{
    ConnectRecords, Query, ReadQuery, UpdateManyRecords, UpdateRecord,
    UpdateRecordWithoutSelection, WriteArgs, WriteQuery,
};
use query_graph::query_graph::{
    dependency_fits, DataExpectation, Edge, Node, NodeRef, QueryGraph, QueryGraphDependency,
    RowExpectation, RowSink, Transform,
};
use query_graph::query_graph_builder::write::utils::{read_id_infallible, read_ids_infallible};
use query_graph::schema::{FieldSelection, ModelRef, RelationField};
use query_graph::value::{FieldValue, PrismaValue, SelectionResult};

fn ids() -> FieldSelection {
    FieldSelection { fields: vec!["id".to_string()] }
}

fn read_one() -> Node {
    Node::Query(read_id_infallible(&"User".to_string(), ids(), Filter::empty()))
}

fn read_many() -> Node {
    Node::Query(read_ids_infallible(&"User".to_string(), ids(), Filter::empty()))
}

fn update_one() -> Node {
    Node::Query(Query::Write(WriteQuery::UpdateRecord(UpdateRecord::WithoutSelection(
        UpdateRecordWithoutSelection {
            model: "User".to_string(),
            record_filter: RecordFilter::from_filter(Filter::Not(vec![])),
            args: WriteArgs { args: vec![] },
        },
    ))))
}

fn update_many() -> Node {
    Node::Query(Query::Write(WriteQuery::UpdateManyRecords(UpdateManyRecords {
        name: "u".to_string(),
        model: "User".to_string(),
        record_filter: RecordFilter::from_filter(Filter::Not(vec![])),
        args: WriteArgs { args: vec![] },
        selected_fields: None,
        limit: None,
    })))
}

fn connect() -> Node {
    Node::Query(Query::Write(WriteQuery::ConnectRecords(ConnectRecords {
        parent_id: None,
        child_ids: vec![],
        relation_field: RelationField {
            name: "posts".to_string(),
            relation_name: "r".to_string(),
            many_to_many: true,
            model: ModelRef { name: "A".to_string(), primary_identifier: ids() },
            related_model: ModelRef { name: "B".to_string(), primary_identifier: ids() },
        },
    })))
}

fn row(id: i64) -> SelectionResult {
    SelectionResult {
        pairs: vec![FieldValue { field: "id".to_string(), value: PrismaValue::Int(id) }],
    }
}

fn sink(sink: RowSink) -> QueryGraphDependency {
    QueryGraphDependency::ProjectedDataSinkDependency(ids(), sink, None)
}

fn transform(transform: Transform) -> QueryGraphDependency {
    QueryGraphDependency::ProjectedDataDependency(ids(), transform, None)
}

#[test]
fn a_new_graph_is_empty() {
    let graph = QueryGraph::new();
    assert!(graph.nodes.is_empty());
    assert!(graph.edges.is_empty());
    assert_eq!(graph.result_node(), None);
    assert!(!graph.needs_transaction());
    assert_eq!(graph.node_count(), 0);
}

#[test]
fn nodes_get_handles_in_the_order_of_their_creation() {
    let mut graph = QueryGraph::new();
    assert_eq!(graph.create_node(Node::Empty), NodeRef { node_ix: 0 });
    assert_eq!(graph.create_node(read_one()), NodeRef { node_ix: 1 });
    assert_eq!(graph.create_node(Node::Empty), NodeRef { node_ix: 2 });
    assert_eq!(graph.node_count(), 3);
    assert_eq!(*graph.node(&NodeRef { node_ix: 1 }), read_one());
    assert_eq!(*graph.node(&NodeRef { node_ix: 2 }), Node::Empty);
}

#[test]
fn edges_are_kept_in_the_order_of_their_creation() {
    let mut graph = QueryGraph::new();
    let a = graph.create_node(read_one());
    let b = graph.create_node(update_one());
    assert_eq!(graph.create_edge(&a, &b, sink(RowSink::AllUpdateRecordSelectors)), Ok(()));
    assert_eq!(graph.create_edge(&b, &a, QueryGraphDependency::ExecutionOrder), Ok(()));
    assert_eq!(
        graph.edges,
        vec![
            Edge { source: 0, target: 1, dependency: sink(RowSink::AllUpdateRecordSelectors) },
            Edge { source: 1, target: 0, dependency: QueryGraphDependency::ExecutionOrder },
        ]
    );
}

#[test]
fn there_is_at_most_one_result_node() {
    let mut graph = QueryGraph::new();
    let a = graph.create_node(Node::Empty);
    let b = graph.create_node(Node::Empty);
    graph.add_result_node(&a);
    assert_eq!(graph.result_node(), Some(a));
    graph.add_result_node(&b);
    assert_eq!(graph.result_node(), Some(b));
    assert_eq!(graph.result_node, Some(1));
}

#[test]
fn flagging_twice_is_flagging_once() {
    let mut graph = QueryGraph::new();
    graph.flag_transactional();
    let once = QueryGraph { nodes: vec![], edges: vec![], result_node: None, transactional: true };
    assert_eq!(graph, once);
    graph.flag_transactional();
    assert_eq!(graph, once);
    assert!(graph.needs_transaction());
}

#[test]
fn an_edge_that_cannot_rewrite_the_result_node_is_refused() {
    let mut graph = QueryGraph::new();
    let source = graph.create_node(read_many());
    let target = graph.create_node(read_one());
    // As long as the target is not the result node, every edge is accepted.
    assert_eq!(graph.create_edge(&source, &target, transform(Transform::ConnectParent)), Ok(()));
    graph.add_result_node(&target);
    let before = graph.edges.len();
    let refused = Err(QueryGraphBuilderError::AssertionError(
        "The dependency cannot apply to the result node it leads to.".to_string(),
    ));
    assert_eq!(graph.create_edge(&source, &target, transform(Transform::ConnectParent)), refused);
    assert_eq!(graph.create_edge(&source, &target, transform(Transform::ConnectChildren)), refused);
    assert_eq!(graph.create_edge(&source, &target, transform(Transform::UpdateManyFilter)), refused);
    assert_eq!(graph.create_edge(&source, &target, sink(RowSink::AllUpdateRecordSelectors)), refused);
    assert_eq!(graph.edges.len(), before);
    assert_eq!(graph.create_edge(&source, &target, transform(Transform::Identity)), Ok(()));
    assert_eq!(graph.create_edge(&source, &target, QueryGraphDependency::ExecutionOrder), Ok(()));
    assert_eq!(
        graph.create_edge(&source, &target, sink(RowSink::ExactlyOneRecordQueryFilter)),
        Ok(())
    );
    // An edge from the result node is accepted, whatever it is.
    assert_eq!(graph.create_edge(&target, &source, transform(Transform::ConnectParent)), Ok(()));
    assert_eq!(graph.edges.len(), before + 4);
}

#[test]
fn a_dependency_fits_the_kind_of_node_it_rewrites() {
    let nodes = [read_one(), read_many(), update_one(), update_many(), connect(), Node::Empty];
    let fits = |dependency: QueryGraphDependency| -> Vec<bool> {
        nodes.iter().map(|node| dependency_fits(&dependency, node)).collect()
    };
    assert_eq!(fits(QueryGraphDependency::ExecutionOrder), vec![true; 6]);
    assert_eq!(fits(transform(Transform::Identity)), vec![true; 6]);
    assert_eq!(
        fits(transform(Transform::UpdateManyFilter)),
        vec![false, false, false, true, false, false]
    );
    assert_eq!(
        fits(transform(Transform::ConnectParent)),
        vec![false, false, false, false, true, false]
    );
    assert_eq!(
        fits(transform(Transform::ConnectChildren)),
        vec![false, false, false, false, true, false]
    );
    assert_eq!(
        fits(sink(RowSink::AllUpdateRecordSelectors)),
        vec![false, false, true, false, false, false]
    );
    assert_eq!(
        fits(sink(RowSink::ExactlyOneRecordQueryFilter)),
        vec![true, false, false, false, false, false]
    );
}

#[test]
fn an_expectation_reports_what_it_expected_and_what_it_got() {
    let missing = DataDependencyError::MissingRecord(MissingRecord { operation: DataOperation::Delete });
    let non_empty = DataExpectation::non_empty_rows(missing);
    assert_eq!(non_empty, DataExpectation { rows: RowExpectation::NonEmpty, error: missing });
    assert_eq!(non_empty.check(1), Ok(()));
    assert_eq!(non_empty.check(7), Ok(()));
    assert_eq!(
        non_empty.check(0),
        Err(UserFacingError::MissingRecord { operation: DataOperation::Delete })
    );
    let incomplete =
        DataDependencyError::IncompleteConnectInput(IncompleteConnectInput { expected_rows: 3 });
    let exact = DataExpectation::exact_row_count(3, incomplete);
    assert_eq!(exact.check(3), Ok(()));
    assert_eq!(exact.check(2), Err(UserFacingError::IncompleteConnect { expected: 3, actual: 2 }));
    assert_eq!(exact.check(4), Err(UserFacingError::IncompleteConnect { expected: 3, actual: 4 }));
    assert_eq!(exact.check(0), Err(UserFacingError::IncompleteConnect { expected: 3, actual: 0 }));
    let none = DataExpectation::exact_row_count(0, missing);
    assert_eq!(none.check(0), Ok(()));
    assert_eq!(
        none.check(1),
        Err(UserFacingError::MissingRecord { operation: DataOperation::Delete })
    );
}

#[test]
fn a_transform_rewrites_only_the_kind_of_node_it_addresses() {
    let mut node = update_many();
    assert_eq!(node.apply_transform(Transform::UpdateManyFilter, vec![row(1), row(2)]), Ok(()));
    match &node {
        Node::Query(Query::Write(WriteQuery::UpdateManyRecords(update))) => {
            assert_eq!(
                update.record_filter,
                RecordFilter { filter: Filter::And(vec![]), selectors: Some(vec![row(1), row(2)]) }
            );
        }
        other => panic!("unexpected node {:?}", other),
    }
    for transform in [Transform::UpdateManyFilter, Transform::ConnectChildren, Transform::Identity] {
        let mut node = read_one();
        assert_eq!(node.apply_transform(transform, vec![row(1)]), Ok(()));
        assert_eq!(node, read_one());
    }
    let mut node = read_one();
    assert_eq!(node.apply_transform(Transform::ConnectParent, vec![row(1)]), Ok(()));
    assert_eq!(node, read_one());
    assert_eq!(
        node.apply_transform(Transform::ConnectParent, vec![]),
        Err(QueryGraphBuilderError::AssertionError(
            "Required exactly one parent ID to be present for connect query, found 0.".to_string()
        ))
    );
    let mut node = update_many();
    assert_eq!(node.apply_transform(Transform::Identity, vec![row(1)]), Ok(()));
    assert_eq!(node, update_many());
}

#[test]
fn rows_are_written_into_the_slot_of_the_node() {
    let mut node = update_one();
    assert_eq!(node.write_rows(RowSink::AllUpdateRecordSelectors, vec![row(4)]), Ok(()));
    match &node {
        Node::Query(Query::Write(WriteQuery::UpdateRecord(UpdateRecord::WithoutSelection(u)))) => {
            // The filter stays, the selectors are the rows.
            assert_eq!(
                u.record_filter,
                RecordFilter { filter: Filter::Not(vec![]), selectors: Some(vec![row(4)]) }
            );
        }
        other => panic!("unexpected node {:?}", other),
    }
    let unfit = Err(QueryGraphBuilderError::AssertionError(
        "The rows cannot be written into a node of this kind.".to_string(),
    ));
    let mut node = update_many();
    assert_eq!(node.write_rows(RowSink::AllUpdateRecordSelectors, vec![row(4)]), unfit);
    assert_eq!(node, update_many());
    let mut node = read_many();
    assert_eq!(node.write_rows(RowSink::ExactlyOneRecordQueryFilter, vec![row(4)]), unfit);
    let mut node = Node::Empty;
    assert_eq!(node.write_rows(RowSink::ExactlyOneRecordQueryFilter, vec![row(4)]), unfit);

    let mut node = read_one();
    assert_eq!(node.write_rows(RowSink::ExactlyOneRecordQueryFilter, vec![row(4)]), Ok(()));
    match &node {
        Node::Query(Query::Read(ReadQuery::RecordQuery(read))) => {
            assert_eq!(read.filter, Some(Filter::from_selection(&row(4))));
        }
        other => panic!("unexpected node {:?}", other),
    }
    let not_one = Err(QueryGraphBuilderError::AssertionError(
        "Required exactly one row, found another number.".to_string(),
    ));
    let mut node = read_one();
    assert_eq!(node.write_rows(RowSink::ExactlyOneRecordQueryFilter, vec![]), not_one);
    assert_eq!(node.write_rows(RowSink::ExactlyOneRecordQueryFilter, vec![row(1), row(2)]), not_one);
    assert_eq!(node, read_one());
}
