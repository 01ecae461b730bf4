use query_graph::document::{
    FieldInput, FieldPair, NestedOperation, ParsedArgument, ParsedField, ParsedInputField,
    ParsedInputMap, ParsedInputValue, ParsedObject,
};
use query_graph::error::{DataOperation, MissingRecord, QueryGraphBuilderError};
use query_graph::filter::{Filter, RecordFilter, ScalarCondition, ScalarFilter};
use query_graph::interpreter::{Execution, QueryResult, Step};
use query_graph::query_ast::{
    ManyRecordsQuery, Query, ReadQuery, RelatedRecordsQuery, UpdateManyRecords,
    UpdateManyRecordsFields, WriteArgs, WriteQuery,
};
use query_graph::query_graph::{Node, NodeRef, QueryGraph, QueryGraphDependency, Transform};
use query_graph::query_graph_builder::write::limit::validate_limit;
use query_graph::query_graph_builder::write::update::{
    update_many_record_node, update_many_records, UpdateManyRecordNodeOptionals,
};
use query_graph::schema::{
    FieldSelection, Model, ModelRef, QuerySchema, RelationField, RelationMode,
};
use query_graph::datetime::DateTime;
use query_graph::value::{FieldValue, PrismaValue, SelectionResult};

// The time of the request: the first second of 2024, UTC.
const NOW: DateTime = DateTime { timestamp: 1_704_067_200, nanos: 0, offset: 0 };

fn user() -> Model {
    Model {
        name: "User".to_string(),
        primary_identifier: FieldSelection { fields: vec!["id".to_string()] },
        scalar_fields: vec!["id".to_string(), "name".to_string(), "age".to_string()],
        relation_fields: vec![RelationField {
            name: "groups".to_string(),
            relation_name: "GroupToUser".to_string(),
            many_to_many: true,
            model: ModelRef {
                name: "User".to_string(),
                primary_identifier: FieldSelection { fields: vec!["id".to_string()] },
            },
            related_model: ModelRef {
                name: "Group".to_string(),
                primary_identifier: FieldSelection { fields: vec!["gid".to_string()] },
            },
        }],
        updated_at_fields: vec![],
    }
}

fn older_than(age: i64) -> Filter {
    Filter::Not(vec![Filter::Scalar(ScalarFilter {
        field: "age".to_string(),
        condition: ScalarCondition::In(vec![PrismaValue::Int(age)]),
    })])
}

fn argument(name: &str, value: ParsedInputValue) -> ParsedArgument {
    ParsedArgument { name: name.to_string(), value }
}

fn rename_to(name: &str) -> ParsedInputValue {
    ParsedInputValue::Object(ParsedInputMap {
        fields: vec![ParsedInputField {
            name: "name".to_string(),
            value: FieldInput::Scalar(PrismaValue::String(name.to_string())),
        }],
    })
}

fn request(arguments: Vec<ParsedArgument>) -> ParsedField {
    ParsedField {
        name: "updateManyUser".to_string(),
        alias: None,
        arguments,
        nested_fields: Some(ParsedObject {
            fields: vec![
                FieldPair { name: "name".to_string(), alias: Some("n".to_string()), nested_fields: None },
                FieldPair {
                    name: "groups".to_string(),
                    alias: None,
                    nested_fields: Some(vec!["gid".to_string()]),
                },
            ],
        }),
    }
}

fn foreign_keys() -> QuerySchema {
    QuerySchema { capabilities: vec![], relation_mode: RelationMode::ForeignKeys }
}

fn emulated() -> QuerySchema {
    QuerySchema { capabilities: vec![], relation_mode: RelationMode::Prisma }
}

fn renamed(name: &str) -> WriteArgs {
    WriteArgs {
        args: vec![FieldValue {
            field: "name".to_string(),
            value: PrismaValue::String(name.to_string()),
        }],
    }
}

#[test]
fn with_foreign_keys_one_node_updates_by_the_filter() {
    let mut graph = QueryGraph::new();
    let field = request(vec![
        argument("data", rename_to("x")),
        argument("limit", ParsedInputValue::Single(PrismaValue::Int(10))),
        argument("where", ParsedInputValue::Filter(older_than(30))),
    ]);
    update_many_records(&mut graph, &foreign_keys(), user(), false, field, NOW).unwrap();
    assert_eq!(
        graph.nodes,
        vec![Node::Query(Query::Write(WriteQuery::UpdateManyRecords(UpdateManyRecords {
            name: "updateManyUser".to_string(),
            model: "User".to_string(),
            record_filter: RecordFilter { filter: older_than(30), selectors: None },
            args: renamed("x"),
            selected_fields: None,
            limit: Some(10),
        })))]
    );
    assert!(graph.edges.is_empty());
    assert!(graph.transactional);
    assert_eq!(graph.result_node, None);
}

#[test]
fn without_a_filter_every_record_is_updated() {
    let mut graph = QueryGraph::new();
    update_many_records(
        &mut graph,
        &foreign_keys(),
        user(),
        false,
        request(vec![argument("data", rename_to("x"))]),
        NOW,
    )
    .unwrap();
    match &graph.nodes[0] {
        Node::Query(Query::Write(WriteQuery::UpdateManyRecords(update))) => {
            assert_eq!(update.record_filter.filter, Filter::And(vec![]));
            assert_eq!(update.limit, None);
        }
        other => panic!("unexpected node {:?}", other),
    }
}

#[test]
fn the_updated_records_are_handed_back_if_asked_for() {
    let mut graph = QueryGraph::new();
    update_many_records(
        &mut graph,
        &foreign_keys(),
        user(),
        true,
        request(vec![argument("data", rename_to("x"))]),
        NOW,
    )
    .unwrap();
    match &graph.nodes[0] {
        Node::Query(Query::Write(WriteQuery::UpdateManyRecords(update))) => {
            assert_eq!(
                update.selected_fields,
                Some(UpdateManyRecordsFields {
                    fields: FieldSelection { fields: vec!["name".to_string()] },
                    order: vec!["n".to_string(), "groups".to_string()],
                    nested: vec![RelatedRecordsQuery {
                        name: "groups".to_string(),
                        alias: None,
                        parent_field: "groups".to_string(),
                        selection_order: vec!["gid".to_string()],
                    }],
                })
            );
        }
        other => panic!("unexpected node {:?}", other),
    }
}

#[test]
fn with_emulated_relations_the_records_are_read_first() {
    let mut graph = QueryGraph::new();
    let field = request(vec![
        argument("where", ParsedInputValue::Filter(older_than(30))),
        argument("data", rename_to("x")),
    ]);
    update_many_records(&mut graph, &emulated(), user(), false, field, NOW).unwrap();
    assert_eq!(graph.nodes.len(), 2);
    assert_eq!(
        graph.nodes[0],
        Node::Query(Query::Read(ReadQuery::ManyRecordsQuery(ManyRecordsQuery {
            name: "read_ids_infallible".to_string(),
            alias: None,
            model: "User".to_string(),
            filter: older_than(30),
            selected_fields: FieldSelection { fields: vec!["id".to_string()] },
            nested: vec![],
            selection_order: vec![],
        })))
    );
    match &graph.nodes[1] {
        Node::Query(Query::Write(WriteQuery::UpdateManyRecords(update))) => {
            assert_eq!(
                update.record_filter,
                RecordFilter { filter: Filter::And(vec![]), selectors: None }
            );
        }
        other => panic!("unexpected node {:?}", other),
    }
    assert_eq!(graph.edges.len(), 1);
    assert_eq!((graph.edges[0].source, graph.edges[0].target), (0, 1));
    assert_eq!(
        graph.edges[0].dependency,
        QueryGraphDependency::ProjectedDataDependency(
            FieldSelection { fields: vec!["id".to_string()] },
            Transform::UpdateManyFilter,
            None
        )
    );
    assert!(graph.transactional);
}

fn id_row(id: i64, name: &str) -> SelectionResult {
    SelectionResult {
        pairs: vec![
            FieldValue { field: "id".to_string(), value: PrismaValue::Int(id) },
            FieldValue { field: "name".to_string(), value: PrismaValue::String(name.to_string()) },
        ],
    }
}

fn only_id(id: i64) -> SelectionResult {
    SelectionResult {
        pairs: vec![FieldValue { field: "id".to_string(), value: PrismaValue::Int(id) }],
    }
}

#[test]
fn the_update_runs_on_exactly_the_records_that_were_read() {
    let mut graph = QueryGraph::new();
    let field = request(vec![
        argument("where", ParsedInputValue::Filter(older_than(30))),
        argument("data", rename_to("x")),
    ]);
    update_many_records(&mut graph, &emulated(), user(), false, field, NOW).unwrap();
    let mut execution = Execution::new(graph, MissingRecord { operation: DataOperation::Query });

    assert_eq!(execution.step(), Step::Execute(NodeRef { node_ix: 0 }));
    assert!(execution
        .complete(Ok(QueryResult::Rows(vec![id_row(3, "a"), id_row(5, "b"), id_row(8, "c")]))));
    assert_eq!(execution.step(), Step::Execute(NodeRef { node_ix: 1 }));
    match execution.node(&NodeRef { node_ix: 1 }) {
        Node::Query(Query::Write(WriteQuery::UpdateManyRecords(update))) => {
            assert_eq!(
                update.record_filter,
                RecordFilter {
                    filter: Filter::And(vec![]),
                    selectors: Some(vec![only_id(3), only_id(5), only_id(8)]),
                }
            );
            assert_eq!(update.args, renamed("x"));
        }
        other => panic!("unexpected node {:?}", other),
    }
    assert!(execution.complete(Ok(QueryResult::Count(3))));
    assert_eq!(execution.step(), Step::Finished(Ok(None)));
}

#[test]
fn the_update_runs_on_no_record_if_none_was_read() {
    let mut graph = QueryGraph::new();
    let field = request(vec![argument("data", rename_to("x"))]);
    update_many_records(&mut graph, &emulated(), user(), false, field, NOW).unwrap();
    let mut execution = Execution::new(graph, MissingRecord { operation: DataOperation::Query });
    assert_eq!(execution.step(), Step::Execute(NodeRef { node_ix: 0 }));
    assert!(execution.complete(Ok(QueryResult::Rows(vec![]))));
    assert_eq!(execution.step(), Step::Execute(NodeRef { node_ix: 1 }));
    match execution.node(&NodeRef { node_ix: 1 }) {
        Node::Query(Query::Write(WriteQuery::UpdateManyRecords(update))) => {
            assert_eq!(update.record_filter.selectors, Some(vec![]));
        }
        other => panic!("unexpected node {:?}", other),
    }
}

fn input_error(message: &str) -> QueryGraphBuilderError {
    QueryGraphBuilderError::InputError(message.to_string())
}

#[test]
fn malformed_requests_to_update_many_are_refused() {
    let build = |arguments: Vec<ParsedArgument>| {
        let mut graph = QueryGraph::new();
        let result = update_many_records(&mut graph, &emulated(), user(), false, request(arguments), NOW);
        (result, graph)
    };
    let (result, graph) = build(vec![]);
    assert_eq!(result, Err(input_error("Expected the argument `data` to be present.")));
    assert!(graph.transactional);
    assert!(graph.nodes.is_empty());

    let (result, _) = build(vec![
        argument("data", rename_to("x")),
        argument("where", ParsedInputValue::Single(PrismaValue::Null)),
    ]);
    assert_eq!(result, Err(input_error("Expected the argument to be a filter object.")));

    let (result, _) =
        build(vec![argument("data", ParsedInputValue::Filter(Filter::And(vec![])))]);
    assert_eq!(result, Err(input_error("Expected the argument to be an input object.")));

    let (result, _) = build(vec![
        argument("data", ParsedInputValue::Filter(Filter::And(vec![]))),
        argument("limit", ParsedInputValue::Single(PrismaValue::Int(-1))),
    ]);
    assert_eq!(result, Err(input_error("Provided limit must be a positive integer.")));
}

#[test]
fn a_limit_is_a_nonnegative_integer() {
    let limit = |value: PrismaValue| {
        validate_limit(Some(argument("limit", ParsedInputValue::Single(value))))
    };
    assert_eq!(validate_limit(None), Ok(None));
    assert_eq!(limit(PrismaValue::Int(0)), Ok(Some(0)));
    assert_eq!(limit(PrismaValue::Int(25)), Ok(Some(25)));
    assert_eq!(
        limit(PrismaValue::Int(-1)),
        Err(input_error("Provided limit must be a positive integer."))
    );
    assert_eq!(limit(PrismaValue::String("25".to_string())), Ok(None));
    assert_eq!(limit(PrismaValue::BigInt(25)), Ok(None));
    assert_eq!(
        validate_limit(Some(argument("limit", ParsedInputValue::Filter(Filter::And(vec![]))))),
        Ok(None)
    );
}

#[test]
fn a_nested_connect_follows_the_update_of_many() {
    let mut graph = QueryGraph::new();
    let data = ParsedInputMap {
        fields: vec![
            ParsedInputField {
                name: "groups".to_string(),
                value: FieldInput::Nested(vec![NestedOperation {
                    name: "connect".to_string(),
                    selectors: vec![older_than(1), older_than(2), older_than(3)],
                }]),
            },
            ParsedInputField {
                name: "name".to_string(),
                value: FieldInput::Scalar(PrismaValue::String("x".to_string())),
            },
        ],
    };
    let node = update_many_record_node(
        &mut graph,
        &foreign_keys(),
        Filter::And(vec![]),
        user(),
        data,
        UpdateManyRecordNodeOptionals { name: None, nested_field_selection: None, limit: Some(2) },
        NOW,
    )
    .unwrap();
    assert_eq!(node, NodeRef { node_ix: 0 });
    assert_eq!(graph.nodes.len(), 3);
    match &graph.nodes[0] {
        Node::Query(Query::Write(WriteQuery::UpdateManyRecords(update))) => {
            assert_eq!(update.name, "");
            assert_eq!(update.args, renamed("x"));
            assert_eq!(update.limit, Some(2));
        }
        other => panic!("unexpected node {:?}", other),
    }
    match &graph.nodes[1] {
        Node::Query(Query::Read(ReadQuery::ManyRecordsQuery(read))) => {
            assert_eq!(read.model, "Group");
            assert_eq!(read.selected_fields.fields, vec!["gid".to_string()]);
            assert_eq!(
                read.filter,
                Filter::Or(vec![older_than(1), older_than(2), older_than(3)])
            );
        }
        other => panic!("unexpected node {:?}", other),
    }
    assert!(matches!(
        graph.nodes[2],
        Node::Query(Query::Write(WriteQuery::ConnectRecords(_)))
    ));
    let ends: Vec<(usize, usize)> = graph.edges.iter().map(|e| (e.source, e.target)).collect();
    assert_eq!(ends, vec![(0, 1), (0, 2), (1, 2)]);
    assert_eq!(graph.edges[0].dependency, QueryGraphDependency::ExecutionOrder);
    match &graph.edges[2].dependency {
        QueryGraphDependency::ProjectedDataDependency(selection, _, Some(expectation)) => {
            assert_eq!(selection.fields, vec!["gid".to_string()]);
            assert_eq!(
                expectation.rows,
                query_graph::query_graph::RowExpectation::Exact(3)
            );
        }
        other => panic!("unexpected dependency {:?}", other),
    }
}

#[test]
fn an_update_of_many_sets_the_time_of_the_last_update() {
    let mut model = user();
    model.updated_at_fields = vec!["age".to_string()];
    let mut graph = QueryGraph::new();
    update_many_records(
        &mut graph,
        &foreign_keys(),
        model,
        false,
        request(vec![argument("data", rename_to("x"))]),
        NOW,
    )
    .unwrap();
    match &graph.nodes[0] {
        Node::Query(Query::Write(WriteQuery::UpdateManyRecords(update))) => {
            assert_eq!(
                update.args.args,
                vec![
                    FieldValue {
                        field: "name".to_string(),
                        value: PrismaValue::String("x".to_string())
                    },
                    FieldValue { field: "age".to_string(), value: PrismaValue::DateTime(NOW) },
                ]
            );
        }
        other => panic!("unexpected node {:?}", other),
    }
}
