use query_graph::document::{
    lookup, FieldInput, FieldPair, ParsedArgument, ParsedField, ParsedInputField, ParsedInputMap,
    ParsedInputValue, ParsedObject,
};
use query_graph::error::QueryGraphBuilderError;
use query_graph::filter::{Filter, ScalarCondition, ScalarFilter};
use query_graph::query_ast::{
    AggregateRecordsQuery, AggregationSelection, OrderBy, QueryArguments, ReadQuery, RecordQuery,
    SelectionTree,
};
use query_graph::query_graph_builder::read::aggregate::{
    aggregate, extract_query_args, requires_inmemory_processing, resolve_query,
};
use query_graph::query_graph_builder::read::{
    collect_nested_reads, collect_selected_scalars, collect_selection_order, find_unique,
};
use query_graph::query_graph_builder::write::update::can_use_atomic_update;
use query_graph::query_graph_builder::write::write_args_parser::WriteArgsParser;
use query_graph::schema::{
    ConnectorCapability, FieldSelection, Model, ModelRef, QuerySchema, RelationField,
    RelationMode,
};
use query_graph::value::{FieldValue, PrismaValue, SelectionResult};

fn user() -> Model {
    Model {
        name: "User".to_string(),
        primary_identifier: FieldSelection { fields: vec!["id".to_string()] },
        scalar_fields: vec!["id".to_string(), "name".to_string(), "age".to_string()],
        relation_fields: vec![RelationField {
            name: "posts".to_string(),
            relation_name: "PostToUser".to_string(),
            many_to_many: false,
            model: ModelRef {
                name: "User".to_string(),
                primary_identifier: FieldSelection { fields: vec!["id".to_string()] },
            },
            related_model: ModelRef {
                name: "Post".to_string(),
                primary_identifier: FieldSelection { fields: vec!["id".to_string()] },
            },
        }],
        updated_at_fields: vec![],
    }
}

fn plain(name: &str) -> FieldPair {
    FieldPair { name: name.to_string(), alias: None, nested_fields: None }
}

fn below(name: &str, nested: &[&str]) -> FieldPair {
    FieldPair {
        name: name.to_string(),
        alias: None,
        nested_fields: Some(nested.iter().map(|n| n.to_string()).collect()),
    }
}

fn id_is(id: i64) -> Filter {
    Filter::Scalar(ScalarFilter {
        field: "id".to_string(),
        condition: ScalarCondition::Equals(PrismaValue::Int(id)),
    })
}

fn argument(name: &str, value: ParsedInputValue) -> ParsedArgument {
    ParsedArgument { name: name.to_string(), value }
}

fn object(entries: Vec<(&str, FieldInput)>) -> ParsedInputValue {
    ParsedInputValue::Object(ParsedInputMap {
        fields: entries
            .into_iter()
            .map(|(name, value)| ParsedInputField { name: name.to_string(), value })
            .collect(),
    })
}

fn field(arguments: Vec<ParsedArgument>, fields: Option<Vec<FieldPair>>) -> ParsedField {
    ParsedField {
        name: "op".to_string(),
        alias: Some("alias".to_string()),
        arguments,
        nested_fields: fields.map(|fields| ParsedObject { fields }),
    }
}

fn input_error(message: &str) -> QueryGraphBuilderError {
    QueryGraphBuilderError::InputError(message.to_string())
}

#[test]
fn the_first_argument_of_a_name_is_taken_out() {
    let mut arguments = vec![
        argument("a", ParsedInputValue::Single(PrismaValue::Int(1))),
        argument("b", ParsedInputValue::Single(PrismaValue::Int(2))),
        argument("a", ParsedInputValue::Single(PrismaValue::Int(3))),
    ];
    assert_eq!(
        lookup(&mut arguments, "a"),
        Some(argument("a", ParsedInputValue::Single(PrismaValue::Int(1))))
    );
    assert_eq!(lookup(&mut arguments, "c"), None);
    assert_eq!(
        arguments,
        vec![
            argument("b", ParsedInputValue::Single(PrismaValue::Int(2))),
            argument("a", ParsedInputValue::Single(PrismaValue::Int(3))),
        ]
    );
    assert_eq!(
        lookup(&mut arguments, "a"),
        Some(argument("a", ParsedInputValue::Single(PrismaValue::Int(3))))
    );
    assert_eq!(lookup(&mut arguments, "a"), None);
    assert_eq!(arguments.len(), 1);
}

#[test]
fn a_selection_is_taken_apart() {
    let fields = vec![
        FieldPair { name: "name".to_string(), alias: Some("n".to_string()), nested_fields: None },
        below("posts", &["title", "id"]),
        plain("unknown"),
        plain("id"),
    ];
    assert_eq!(
        collect_selection_order(&fields),
        vec!["n".to_string(), "posts".to_string(), "unknown".to_string(), "id".to_string()]
    );
    assert_eq!(
        collect_selected_scalars(&fields, &user()),
        FieldSelection { fields: vec!["name".to_string(), "id".to_string()] }
    );
    let nested = collect_nested_reads(&fields);
    assert_eq!(nested.len(), 1);
    assert_eq!(nested[0].name, "posts");
    assert_eq!(nested[0].selection_order, vec!["title".to_string(), "id".to_string()]);
    assert!(collect_selection_order(&vec![]).is_empty());
}

#[test]
fn a_read_of_one_record_takes_its_filter_from_the_request() {
    let request = field(
        vec![
            argument("take", ParsedInputValue::Single(PrismaValue::Int(1))),
            argument("where", ParsedInputValue::Filter(id_is(4))),
        ],
        Some(vec![plain("id"), plain("name")]),
    );
    assert_eq!(
        find_unique(request, &user()),
        Ok(ReadQuery::RecordQuery(RecordQuery {
            name: "op".to_string(),
            alias: Some("alias".to_string()),
            model: "User".to_string(),
            filter: Some(id_is(4)),
            selected_fields: FieldSelection { fields: vec!["id".to_string(), "name".to_string()] },
            nested: vec![],
            selection_order: vec!["id".to_string(), "name".to_string()],
        }))
    );
    match find_unique(field(vec![], None), &user()) {
        Ok(ReadQuery::RecordQuery(read)) => {
            assert_eq!(read.filter, None);
            assert!(read.selected_fields.fields.is_empty());
        }
        other => panic!("unexpected result {:?}", other),
    }
    assert_eq!(
        find_unique(field(vec![argument("where", object(vec![]))], None), &user()),
        Err(input_error("Expected the argument to be a filter object."))
    );
}

#[test]
fn an_update_is_atomic_only_with_returning_and_nothing_nested() {
    let with = QuerySchema {
        capabilities: vec![ConnectorCapability::InsertReturning, ConnectorCapability::UpdateReturning],
        relation_mode: RelationMode::Prisma,
    };
    let without = QuerySchema {
        capabilities: vec![ConnectorCapability::InsertReturning, ConnectorCapability::NativeUpsert],
        relation_mode: RelationMode::ForeignKeys,
    };
    let scalars = ParsedInputMap {
        fields: vec![ParsedInputField {
            name: "name".to_string(),
            value: FieldInput::Scalar(PrismaValue::Null),
        }],
    };
    let nested = ParsedInputMap {
        fields: vec![
            ParsedInputField {
                name: "name".to_string(),
                value: FieldInput::Scalar(PrismaValue::Null),
            },
            ParsedInputField { name: "posts".to_string(), value: FieldInput::Nested(vec![]) },
        ],
    };
    let flat = field(vec![], Some(vec![plain("id"), plain("name")]));
    let deep = field(vec![], Some(vec![plain("id"), below("posts", &["id"])]));
    let nothing = field(vec![], None);

    assert!(can_use_atomic_update(&with, &user(), &scalars, &flat));
    assert!(can_use_atomic_update(&with, &user(), &scalars, &nothing));
    assert!(!can_use_atomic_update(&without, &user(), &scalars, &flat));
    assert!(!can_use_atomic_update(&with, &user(), &scalars, &deep));
    assert!(!can_use_atomic_update(&with, &user(), &nested, &flat));
    assert!(!can_use_atomic_update(&without, &user(), &nested, &deep));
    assert!(can_use_atomic_update(&with, &user(), &ParsedInputMap { fields: vec![] }, &flat));

    assert!(with.has_capability(ConnectorCapability::UpdateReturning));
    assert!(!with.has_capability(ConnectorCapability::DeleteReturning));
    assert!(!without.has_capability(ConnectorCapability::UpdateReturning));
    assert!(with.relation_mode().is_prisma());
    assert!(!with.relation_mode().uses_foreign_keys());
    assert!(without.relation_mode().uses_foreign_keys());
    assert!(WriteArgsParser::has_nested_operation(&user(), &nested));
    assert!(!WriteArgsParser::has_nested_operation(&user(), &scalars));
}

#[test]
fn the_data_of_a_write_is_sorted_into_scalars_and_nested_writes() {
    let data = ParsedInputMap {
        fields: vec![
            ParsedInputField {
                name: "age".to_string(),
                value: FieldInput::Scalar(PrismaValue::Int(3)),
            },
            ParsedInputField { name: "posts".to_string(), value: FieldInput::Nested(vec![]) },
            ParsedInputField {
                name: "name".to_string(),
                value: FieldInput::Scalar(PrismaValue::Null),
            },
            ParsedInputField {
                name: "posts".to_string(),
                value: FieldInput::Scalar(PrismaValue::Null),
            },
        ],
    };
    let sorted = WriteArgsParser::from(&user(), data).unwrap();
    assert_eq!(
        sorted.args.args,
        vec![
            FieldValue { field: "age".to_string(), value: PrismaValue::Int(3) },
            FieldValue { field: "name".to_string(), value: PrismaValue::Null },
        ]
    );
    assert_eq!(sorted.nested.len(), 1);
    assert_eq!(sorted.nested[0].relation_field, user().relation_fields[0]);
    assert!(sorted.nested[0].operations.is_empty());

    let wrong = ParsedInputMap {
        fields: vec![ParsedInputField {
            name: "posts".to_string(),
            value: FieldInput::Scalar(PrismaValue::Int(1)),
        }],
    };
    assert_eq!(
        WriteArgsParser::from(&user(), wrong),
        Err(input_error("A value was given for a field that is not a scalar field of the model."))
    );
}

#[test]
fn selected_fields_say_what_to_aggregate() {
    let model = user();
    assert_eq!(
        resolve_query(&plain("count"), &model),
        Ok(AggregationSelection::Count { all: true, fields: vec![] })
    );
    assert_eq!(
        resolve_query(&below("_count", &["_all", "name", "age"]), &model),
        Ok(AggregationSelection::Count {
            all: true,
            fields: vec!["name".to_string(), "age".to_string()]
        })
    );
    assert_eq!(
        resolve_query(&below("_count", &["age"]), &model),
        Ok(AggregationSelection::Count { all: false, fields: vec!["age".to_string()] })
    );
    let age = vec!["age".to_string()];
    assert_eq!(resolve_query(&below("avg", &["age"]), &model), Ok(AggregationSelection::Average(age.clone())));
    assert_eq!(resolve_query(&below("_avg", &["age"]), &model), Ok(AggregationSelection::Average(age.clone())));
    assert_eq!(resolve_query(&below("sum", &["age"]), &model), Ok(AggregationSelection::Sum(age.clone())));
    assert_eq!(resolve_query(&below("_sum", &["age"]), &model), Ok(AggregationSelection::Sum(age.clone())));
    assert_eq!(resolve_query(&below("min", &["age"]), &model), Ok(AggregationSelection::Min(age.clone())));
    assert_eq!(resolve_query(&below("_min", &["age"]), &model), Ok(AggregationSelection::Min(age.clone())));
    assert_eq!(resolve_query(&below("max", &["age"]), &model), Ok(AggregationSelection::Max(age.clone())));
    assert_eq!(resolve_query(&below("_max", &["age"]), &model), Ok(AggregationSelection::Max(age)));
    assert_eq!(
        resolve_query(&plain("name"), &model),
        Ok(AggregationSelection::Field("name".to_string()))
    );
    let unknown = Err(input_error("The selected field is not a scalar field of the model."));
    assert_eq!(resolve_query(&plain("posts"), &model), unknown);
    assert_eq!(resolve_query(&below("_sum", &["age", "posts"]), &model), unknown);
    assert_eq!(
        resolve_query(&plain("_max"), &model),
        Err(input_error("Expected at least one selection for aggregate."))
    );
    assert_eq!(resolve_query(&below("_min", &[]), &model), Ok(AggregationSelection::Min(vec![])));
}

fn cursor(value: PrismaValue) -> ParsedArgument {
    argument("cursor", object(vec![("id", FieldInput::Scalar(value))]))
}

fn order(by: &str, direction: &str) -> ParsedArgument {
    argument(
        "orderBy",
        object(vec![(by, FieldInput::Scalar(PrismaValue::Enum(direction.to_string())))]),
    )
}

#[test]
fn the_arguments_of_a_read_are_taken_from_the_request() {
    let args = extract_query_args(vec![
        argument("skip", ParsedInputValue::Single(PrismaValue::Int(5))),
        cursor(PrismaValue::Int(9)),
        argument("ignored", ParsedInputValue::Single(PrismaValue::Null)),
        argument(
            "orderBy",
            object(vec![
                ("age", FieldInput::Scalar(PrismaValue::Enum("desc".to_string()))),
                ("name", FieldInput::Scalar(PrismaValue::Enum("asc".to_string()))),
            ]),
        ),
        argument("where", ParsedInputValue::Filter(id_is(1))),
        argument("take", ParsedInputValue::Single(PrismaValue::Int(-2))),
    ]);
    assert_eq!(
        args,
        Ok(QueryArguments {
            filter: Some(id_is(1)),
            cursor: Some(SelectionResult {
                pairs: vec![FieldValue { field: "id".to_string(), value: PrismaValue::Int(9) }]
            }),
            order_by: vec![
                OrderBy { field: "age".to_string(), descending: true },
                OrderBy { field: "name".to_string(), descending: false },
            ],
            take: Some(-2),
            skip: Some(5),
        })
    );
    assert_eq!(
        extract_query_args(vec![]),
        Ok(QueryArguments { filter: None, cursor: None, order_by: vec![], take: None, skip: None })
    );
    let malformed = Err(input_error("The argument does not have the expected shape."));
    assert_eq!(extract_query_args(vec![order("age", "down")]), malformed);
    assert_eq!(
        extract_query_args(vec![argument("orderBy", ParsedInputValue::Single(PrismaValue::Null))]),
        malformed
    );
    assert_eq!(
        extract_query_args(vec![argument(
            "cursor",
            object(vec![("id", FieldInput::Nested(vec![]))])
        )]),
        malformed
    );
    assert_eq!(
        extract_query_args(vec![argument("take", ParsedInputValue::Single(PrismaValue::BigInt(1)))]),
        malformed
    );
    assert_eq!(
        extract_query_args(vec![argument("skip", object(vec![]))]),
        malformed
    );
    // The error of `where` comes before that of `take`.
    assert_eq!(
        extract_query_args(vec![
            argument("take", ParsedInputValue::Single(PrismaValue::Null)),
            argument("where", ParsedInputValue::Single(PrismaValue::Null)),
        ]),
        Err(input_error("Expected the argument to be a filter object."))
    );
}

#[test]
fn a_cursor_needs_a_stable_order_and_no_null() {
    let args = |arguments: Vec<ParsedArgument>| extract_query_args(arguments).unwrap();
    let model = user();
    assert!(!requires_inmemory_processing(&args(vec![]), &model));
    assert!(!requires_inmemory_processing(&args(vec![order("age", "asc")]), &model));
    assert!(!requires_inmemory_processing(&args(vec![cursor(PrismaValue::Int(1))]), &model));
    assert!(requires_inmemory_processing(&args(vec![cursor(PrismaValue::Null)]), &model));
    assert!(requires_inmemory_processing(
        &args(vec![cursor(PrismaValue::Int(1)), order("age", "asc")]),
        &model
    ));
    assert!(!requires_inmemory_processing(
        &args(vec![cursor(PrismaValue::Int(1)), order("id", "desc")]),
        &model
    ));
    assert!(requires_inmemory_processing(
        &args(vec![cursor(PrismaValue::Null), order("id", "desc")]),
        &model
    ));
}

#[test]
fn an_aggregation_is_built_from_the_request() {
    let request = field(
        vec![argument("where", ParsedInputValue::Filter(id_is(1)))],
        Some(vec![below("_count", &["_all"]), below("_avg", &["age"]), plain("name")]),
    );
    assert_eq!(
        aggregate(request, user()),
        Ok(ReadQuery::AggregateRecordsQuery(AggregateRecordsQuery {
            name: "op".to_string(),
            alias: Some("alias".to_string()),
            model: "User".to_string(),
            selection_order: vec![
                SelectionTree { name: "_count".to_string(), nested: Some(vec!["_all".to_string()]) },
                SelectionTree { name: "_avg".to_string(), nested: Some(vec!["age".to_string()]) },
                SelectionTree { name: "name".to_string(), nested: None },
            ],
            args: QueryArguments {
                filter: Some(id_is(1)),
                cursor: None,
                order_by: vec![],
                take: None,
                skip: None
            },
            selectors: vec![
                AggregationSelection::Count { all: true, fields: vec![] },
                AggregationSelection::Average(vec!["age".to_string()]),
                AggregationSelection::Field("name".to_string()),
            ],
            group_by: vec![],
            having: None,
        }))
    );
    assert_eq!(
        aggregate(field(vec![cursor(PrismaValue::Null)], Some(vec![plain("posts")])), user()),
        Err(input_error(
            "Unable to process combination of query arguments for aggregation query. Please note that it is not possible at the moment to have a null-cursor, or a cursor and orderBy combination that not stable (unique)."
        ))
    );
    assert_eq!(
        aggregate(field(vec![], Some(vec![plain("name"), plain("posts")])), user()),
        Err(input_error("The selected field is not a scalar field of the model."))
    );
    assert_eq!(
        aggregate(
            field(vec![argument("take", object(vec![]))], Some(vec![plain("posts")])),
            user()
        ),
        Err(input_error("The argument does not have the expected shape."))
    );
    match aggregate(field(vec![], None), user()) {
        Ok(ReadQuery::AggregateRecordsQuery(query)) => assert!(query.selectors.is_empty()),
        other => panic!("unexpected result {:?}", other),
    }
}
