use query_graph::error::{
    DataDependencyError, DataOperation, IncompleteConnectInput, MissingRecord,
    QueryGraphBuilderError, UserFacingError,
};
use query_graph::filter::{Filter, ScalarCondition, ScalarFilter};
use query_graph::interpreter::{Execution, ExecutionError, NodeState, QueryResult, Step};
use query_graph::query_ast::{ConnectRecords, Query, WriteQuery};
use query_graph::query_graph::{
    DataExpectation, Node, NodeRef, QueryGraph, QueryGraphDependency, RowExpectation, Transform,
};
use query_graph::query_graph_builder::write::connect::connect_records_node;
use query_graph::query_graph_builder::write::utils::{read_id_infallible, read_ids_infallible};
use query_graph::schema::{FieldSelection, ModelRef, RelationField};
use query_graph::value::{FieldValue, PrismaValue, SelectionResult};

fn posts_of_category() -> RelationField {
    RelationField {
        name: "posts".to_string(),
        relation_name: "CategoryToPost".to_string(),
        many_to_many: true,
        model: ModelRef {
            name: "Category".to_string(),
            primary_identifier: FieldSelection { fields: vec!["id".to_string()] },
        },
        related_model: ModelRef {
            name: "Post".to_string(),
            primary_identifier: FieldSelection { fields: vec!["id".to_string()] },
        },
    }
}

fn id_is(id: &str) -> Filter {
    Filter::Scalar(ScalarFilter {
        field: "id".to_string(),
        condition: ScalarCondition::Equals(PrismaValue::String(id.to_string())),
    })
}

fn row(id: &str) -> SelectionResult {
    SelectionResult {
        pairs: vec![FieldValue {
            field: "id".to_string(),
            value: PrismaValue::String(id.to_string()),
        }],
    }
}

fn row_with_title(id: &str, title: &str) -> SelectionResult {
    SelectionResult {
        pairs: vec![
            FieldValue { field: "title".to_string(), value: PrismaValue::String(title.to_string()) },
            FieldValue { field: "id".to_string(), value: PrismaValue::String(id.to_string()) },
        ],
    }
}

/// A graph with a read of the parent, a read of the children, and a connect behind both.
fn connect_graph(expected_connects: usize) -> (QueryGraph, NodeRef, NodeRef, NodeRef) {
    let relation = posts_of_category();
    let mut graph = QueryGraph::new();
    let parent = graph.create_node(Node::Query(read_id_infallible(
        &"Category".to_string(),
        FieldSelection { fields: vec!["id".to_string()] },
        id_is("p1"),
    )));
    let child = graph.create_node(Node::Query(read_ids_infallible(
        &"Post".to_string(),
        FieldSelection { fields: vec!["id".to_string()] },
        Filter::or(vec![id_is("c1"), id_is("c2")]),
    )));
    let connect =
        connect_records_node(&mut graph, &parent, &child, &relation, expected_connects).unwrap();
    (graph, parent, child, connect)
}

/// Runs the graph against a connector that answers each node with the rows given for it.
fn run(
    graph: QueryGraph,
    answers: Vec<(usize, Vec<SelectionResult>)>,
) -> (Execution, Vec<usize>, Result<Option<QueryResult>, ExecutionError>) {
    let mut execution = Execution::new(graph, MissingRecord { operation: DataOperation::Query });
    let mut executed = vec![];
    loop {
        match execution.step() {
            Step::Execute(node) => {
                executed.push(node.node_ix);
                let rows = answers
                    .iter()
                    .find(|(ix, _)| *ix == node.node_ix)
                    .map(|(_, rows)| rows.clone())
                    .unwrap_or_default();
                assert!(execution.complete(Ok(QueryResult::Rows(rows))));
            }
            Step::Continue => {}
            Step::Finished(outcome) => return (execution, executed, outcome),
        }
    }
}

#[test]
fn connect_node_has_an_edge_from_parent_and_one_from_child() {
    let (graph, parent, child, connect) = connect_graph(2);
    assert_eq!((parent.node_ix, child.node_ix, connect.node_ix), (0, 1, 2));
    assert_eq!(
        graph.nodes[2],
        Node::Query(Query::Write(WriteQuery::ConnectRecords(ConnectRecords {
            parent_id: None,
            child_ids: vec![],
            relation_field: posts_of_category(),
        })))
    );
    assert_eq!(graph.edges.len(), 2);
    assert_eq!((graph.edges[0].source, graph.edges[0].target), (0, 2));
    assert_eq!(
        graph.edges[0].dependency,
        QueryGraphDependency::ProjectedDataDependency(
            FieldSelection { fields: vec!["id".to_string()] },
            Transform::ConnectParent,
            None
        )
    );
    assert_eq!((graph.edges[1].source, graph.edges[1].target), (1, 2));
    assert_eq!(
        graph.edges[1].dependency,
        QueryGraphDependency::ProjectedDataDependency(
            FieldSelection { fields: vec!["id".to_string()] },
            Transform::ConnectChildren,
            Some(DataExpectation {
                rows: RowExpectation::Exact(2),
                error: DataDependencyError::IncompleteConnectInput(IncompleteConnectInput {
                    expected_rows: 2
                }),
            })
        )
    );
    assert_eq!(graph.result_node, None);
}

#[test]
fn connect_runs_with_the_parent_and_all_children() {
    let (graph, _, _, _) = connect_graph(2);
    assert!(graph.transactional);
    let (execution, executed, outcome) = run(
        graph,
        vec![
            (0, vec![row("p1")]),
            (1, vec![row_with_title("c1", "one"), row_with_title("c2", "two")]),
        ],
    );
    assert_eq!(executed, vec![0, 1, 2]);
    assert_eq!(outcome, Ok(None));
    assert!(execution.needs_transaction());
    assert_eq!(
        *execution.node(&NodeRef { node_ix: 2 }),
        Node::Query(Query::Write(WriteQuery::ConnectRecords(ConnectRecords {
            parent_id: Some(row("p1")),
            child_ids: vec![row("c1"), row("c2")],
            relation_field: posts_of_category(),
        })))
    );
    assert_eq!(execution.state(&NodeRef { node_ix: 2 }), NodeState::Executed);
}

#[test]
fn connect_with_fewer_children_than_expected_fails() {
    let (graph, _, _, _) = connect_graph(2);
    let (execution, executed, outcome) =
        run(graph, vec![(0, vec![row("p1")]), (1, vec![row("c1")])]);
    assert_eq!(executed, vec![0, 1]);
    assert_eq!(
        outcome,
        Err(ExecutionError::Expectation(UserFacingError::IncompleteConnect {
            expected: 2,
            actual: 1
        }))
    );
    assert_eq!(execution.state(&NodeRef { node_ix: 2 }), NodeState::Failed);
}

#[test]
fn connect_with_more_children_than_expected_fails() {
    let (graph, _, _, _) = connect_graph(1);
    let (_, executed, outcome) =
        run(graph, vec![(0, vec![row("p1")]), (1, vec![row("c1"), row("c2")])]);
    assert_eq!(executed, vec![0, 1]);
    assert_eq!(
        outcome,
        Err(ExecutionError::Expectation(UserFacingError::IncompleteConnect {
            expected: 1,
            actual: 2
        }))
    );
}

#[test]
fn incomplete_connect_is_reported_even_without_a_parent() {
    let (graph, _, _, _) = connect_graph(2);
    let (_, _, outcome) = run(graph, vec![(0, vec![]), (1, vec![row("c1")])]);
    assert_eq!(
        outcome,
        Err(ExecutionError::Expectation(UserFacingError::IncompleteConnect {
            expected: 2,
            actual: 1
        }))
    );
}

#[test]
fn connect_without_a_parent_fails() {
    let (graph, _, _, _) = connect_graph(2);
    let (execution, executed, outcome) =
        run(graph, vec![(0, vec![]), (1, vec![row("c1"), row("c2")])]);
    assert_eq!(executed, vec![0, 1]);
    assert_eq!(
        outcome,
        Err(ExecutionError::Builder(QueryGraphBuilderError::AssertionError(
            "Required exactly one parent ID to be present for connect query, found 0."
                .to_string()
        )))
    );
    assert_eq!(execution.state(&NodeRef { node_ix: 2 }), NodeState::Failed);
}

#[test]
fn connect_takes_the_last_row_of_the_parent() {
    let (graph, _, _, _) = connect_graph(1);
    let (execution, _, outcome) =
        run(graph, vec![(0, vec![row("p1"), row("p2")]), (1, vec![row("c1")])]);
    assert_eq!(outcome, Ok(None));
    match execution.node(&NodeRef { node_ix: 2 }) {
        Node::Query(Query::Write(WriteQuery::ConnectRecords(connect))) => {
            assert_eq!(connect.parent_id, Some(row("p2")));
            assert_eq!(connect.child_ids, vec![row("c1")]);
        }
        other => panic!("unexpected node {:?}", other),
    }
}
