use query_graph::error::{DataDependencyError, DataOperation, MissingRecord, UserFacingError};
use query_graph::filter::{Filter, RecordFilter};
use query_graph::interpreter::{
    ConnectorError, Execution, ExecutionError, NodeState, QueryResult, Step,
};
use query_graph::query_ast::{
    Query, UpdateRecord, UpdateRecordWithoutSelection, WriteArgs, WriteQuery,
};
use query_graph::query_graph::{
    DataExpectation, Node, NodeRef, QueryGraph, QueryGraphDependency, RowSink, Transform,
};
use query_graph::query_graph_builder::write::utils::{read_id_infallible, read_ids_infallible};
use query_graph::schema::FieldSelection;
use query_graph::value::{FieldValue, PrismaValue, SelectionResult};

fn ids() -> FieldSelection {
    FieldSelection { fields: vec!["id".to_string()] }
}

fn read() -> Node {
    Node::Query(read_ids_infallible(&"User".to_string(), ids(), Filter::empty()))
}

fn read_one() -> Node {
    Node::Query(read_id_infallible(&"User".to_string(), ids(), Filter::empty()))
}

fn update() -> Node {
    Node::Query(Query::Write(WriteQuery::UpdateRecord(UpdateRecord::WithoutSelection(
        UpdateRecordWithoutSelection {
            model: "User".to_string(),
            record_filter: RecordFilter::from_filter(Filter::empty()),
            args: WriteArgs { args: vec![] },
        },
    ))))
}

fn row(id: i64) -> SelectionResult {
    SelectionResult {
        pairs: vec![FieldValue { field: "id".to_string(), value: PrismaValue::Int(id) }],
    }
}

fn start(graph: QueryGraph) -> Execution {
    Execution::new(graph, MissingRecord { operation: DataOperation::Query })
}

fn node(ix: usize) -> NodeRef {
    NodeRef { node_ix: ix }
}

/// Runs to the end, answering every operation with one row that holds the node's number.
fn run(execution: &mut Execution) -> (Vec<usize>, Result<Option<QueryResult>, ExecutionError>) {
    let mut executed = vec![];
    loop {
        match execution.step() {
            Step::Execute(n) => {
                executed.push(n.node_ix);
                assert!(execution.complete(Ok(QueryResult::Rows(vec![row(n.node_ix as i64)]))));
            }
            Step::Continue => {}
            Step::Finished(outcome) => return (executed, outcome),
        }
    }
}

#[test]
fn an_empty_graph_is_over_at_once() {
    let mut execution = start(QueryGraph::new());
    assert_eq!(execution.step(), Step::Finished(Ok(None)));
    assert_eq!(execution.step(), Step::Finished(Ok(None)));
    assert!(!execution.complete(Ok(QueryResult::Count(1))));
}

#[test]
fn independent_nodes_run_in_the_order_of_their_creation() {
    let mut graph = QueryGraph::new();
    for _ in 0..4 {
        graph.create_node(read());
    }
    graph.add_result_node(&node(2));
    let mut execution = start(graph);
    let (executed, outcome) = run(&mut execution);
    assert_eq!(executed, vec![0, 1, 2, 3]);
    assert_eq!(outcome, Ok(Some(QueryResult::Rows(vec![row(2)]))));
}

#[test]
fn a_node_runs_after_all_its_sources() {
    let mut graph = QueryGraph::new();
    let a = graph.create_node(read());
    let b = graph.create_node(read());
    let c = graph.create_node(read());
    let d = graph.create_node(read());
    // a waits for c and d, b for a, d for c.
    graph.create_edge(&c, &a, QueryGraphDependency::ExecutionOrder).unwrap();
    graph.create_edge(&d, &a, QueryGraphDependency::ExecutionOrder).unwrap();
    graph.create_edge(&a, &b, QueryGraphDependency::ExecutionOrder).unwrap();
    graph.create_edge(&c, &d, QueryGraphDependency::ExecutionOrder).unwrap();
    let mut execution = start(graph);
    let (executed, outcome) = run(&mut execution);
    assert_eq!(executed, vec![2, 3, 0, 1]);
    assert_eq!(outcome, Ok(None));
    for ix in 0..4 {
        assert_eq!(execution.state(&node(ix)), NodeState::Executed);
    }
}

#[test]
fn the_same_graph_and_answers_give_the_same_run() {
    let build = || {
        let mut graph = QueryGraph::new();
        let a = graph.create_node(read());
        let b = graph.create_node(update());
        let c = graph.create_node(read_one());
        graph
            .create_edge(
                &a,
                &b,
                QueryGraphDependency::ProjectedDataSinkDependency(
                    ids(),
                    RowSink::AllUpdateRecordSelectors,
                    None,
                ),
            )
            .unwrap();
        graph
            .create_edge(
                &b,
                &c,
                QueryGraphDependency::ProjectedDataSinkDependency(
                    ids(),
                    RowSink::ExactlyOneRecordQueryFilter,
                    None,
                ),
            )
            .unwrap();
        graph.add_result_node(&c);
        graph
    };
    let mut first = start(build());
    let mut second = start(build());
    assert_eq!(run(&mut first), run(&mut second));
    assert_eq!(first, second);
}

#[test]
fn waiting_for_the_connector_the_step_names_the_node_again() {
    let mut graph = QueryGraph::new();
    graph.create_node(Node::Empty);
    graph.create_node(read());
    let mut execution = start(graph);
    assert_eq!(execution.step(), Step::Continue);
    assert_eq!(execution.state(&node(0)), NodeState::Executed);
    assert_eq!(execution.step(), Step::Execute(node(1)));
    assert_eq!(execution.step(), Step::Execute(node(1)));
    assert_eq!(execution.state(&node(1)), NodeState::Pending);
    assert!(execution.complete(Ok(QueryResult::Count(2))));
    assert_eq!(execution.state(&node(1)), NodeState::Executed);
    assert!(!execution.complete(Ok(QueryResult::Count(3))));
    assert_eq!(execution.step(), Step::Finished(Ok(None)));
}

#[test]
fn an_error_of_the_connector_ends_the_execution() {
    let mut graph = QueryGraph::new();
    let a = graph.create_node(read());
    graph.create_node(read());
    graph.add_result_node(&a);
    let mut execution = start(graph);
    assert_eq!(execution.step(), Step::Execute(node(0)));
    assert!(execution.complete(Err(ConnectorError { message: "connection lost".to_string() })));
    let failed = Step::Finished(Err(ExecutionError::Connector(ConnectorError {
        message: "connection lost".to_string(),
    })));
    assert_eq!(execution.step(), failed);
    assert_eq!(execution.step(), failed);
    assert_eq!(execution.state(&node(0)), NodeState::Failed);
    assert_eq!(execution.state(&node(1)), NodeState::Pending);
}

#[test]
fn a_cancelled_execution_issues_no_further_node() {
    let mut graph = QueryGraph::new();
    graph.create_node(read());
    graph.create_node(read());
    let mut execution = start(graph);
    assert_eq!(execution.step(), Step::Execute(node(0)));
    execution.cancel();
    assert_eq!(execution.step(), Step::Finished(Err(ExecutionError::Cancelled)));
    assert!(!execution.complete(Ok(QueryResult::Count(1))));
    assert_eq!(execution.step(), Step::Finished(Err(ExecutionError::Cancelled)));
    assert_eq!(execution.state(&node(1)), NodeState::Pending);

    // An execution that has failed keeps its error.
    let mut graph = QueryGraph::new();
    graph.create_node(read());
    let mut execution = start(graph);
    execution.step();
    execution.complete(Err(ConnectorError { message: "x".to_string() }));
    execution.cancel();
    assert_eq!(
        execution.step(),
        Step::Finished(Err(ExecutionError::Connector(ConnectorError { message: "x".to_string() })))
    );
}

#[test]
fn nodes_that_wait_for_each_other_end_the_execution() {
    let mut graph = QueryGraph::new();
    let a = graph.create_node(read());
    let b = graph.create_node(read());
    let c = graph.create_node(read());
    graph.create_edge(&b, &c, QueryGraphDependency::ExecutionOrder).unwrap();
    graph.create_edge(&c, &b, QueryGraphDependency::ExecutionOrder).unwrap();
    graph.add_result_node(&a);
    let mut execution = start(graph);
    let (executed, outcome) = run(&mut execution);
    assert_eq!(executed, vec![0]);
    assert_eq!(outcome, Err(ExecutionError::CyclicDependency));
    assert_eq!(execution.step(), Step::Finished(Err(ExecutionError::CyclicDependency)));
}

#[test]
fn a_node_is_left_out_if_a_slot_of_it_gets_no_row() {
    let mut graph = QueryGraph::new();
    let a = graph.create_node(read());
    let b = graph.create_node(update());
    let c = graph.create_node(read());
    let d = graph.create_node(read());
    graph
        .create_edge(
            &a,
            &b,
            QueryGraphDependency::ProjectedDataSinkDependency(
                ids(),
                RowSink::AllUpdateRecordSelectors,
                None,
            ),
        )
        .unwrap();
    graph.create_edge(&b, &c, QueryGraphDependency::ExecutionOrder).unwrap();
    graph.add_result_node(&c);
    let mut execution =
        Execution::new(graph, MissingRecord { operation: DataOperation::Upsert });
    assert_eq!(execution.step(), Step::Execute(a));
    assert!(execution.complete(Ok(QueryResult::Rows(vec![]))));
    // The update is left out, and with it the node behind it.
    assert_eq!(execution.step(), Step::Continue);
    assert_eq!(execution.state(&b), NodeState::Skipped);
    assert_eq!(execution.step(), Step::Continue);
    assert_eq!(execution.state(&c), NodeState::Skipped);
    assert_eq!(execution.step(), Step::Execute(d));
    assert!(execution.complete(Ok(QueryResult::Count(0))));
    assert_eq!(
        execution.step(),
        Step::Finished(Err(ExecutionError::Expectation(UserFacingError::MissingRecord {
            operation: DataOperation::Upsert
        })))
    );
}

#[test]
fn a_count_carries_no_rows() {
    let mut graph = QueryGraph::new();
    let a = graph.create_node(read());
    let b = graph.create_node(Node::Empty);
    graph
        .create_edge(
            &a,
            &b,
            QueryGraphDependency::ProjectedDataDependency(
                ids(),
                Transform::Identity,
                Some(DataExpectation::non_empty_rows(DataDependencyError::MissingRecord(
                    MissingRecord { operation: DataOperation::Delete },
                ))),
            ),
        )
        .unwrap();
    let mut execution = start(graph);
    assert_eq!(execution.step(), Step::Execute(a));
    assert!(execution.complete(Ok(QueryResult::Count(12))));
    assert_eq!(
        execution.step(),
        Step::Finished(Err(ExecutionError::Expectation(UserFacingError::MissingRecord {
            operation: DataOperation::Delete
        })))
    );
    assert_eq!(execution.state(&b), NodeState::Failed);
}

#[test]
fn the_edges_rewrite_a_node_in_the_order_of_their_creation() {
    let mut graph = QueryGraph::new();
    let a = graph.create_node(read());
    let b = graph.create_node(read());
    let c = graph.create_node(update());
    for source in [&b, &a] {
        graph
            .create_edge(
                source,
                &c,
                QueryGraphDependency::ProjectedDataSinkDependency(
                    ids(),
                    RowSink::AllUpdateRecordSelectors,
                    None,
                ),
            )
            .unwrap();
    }
    let mut execution = start(graph);
    let (executed, _) = run(&mut execution);
    assert_eq!(executed, vec![0, 1, 2]);
    // The edge from the first node was created last, so its rows stay.
    match execution.node(&c) {
        Node::Query(Query::Write(WriteQuery::UpdateRecord(UpdateRecord::WithoutSelection(u)))) => {
            assert_eq!(u.record_filter.selectors, Some(vec![row(0)]));
        }
        other => panic!("unexpected node {:?}", other),
    }
}
