use bigdecimal::BigDecimal;
use indexmap::IndexMap;
use query_graph::datetime::DateTime;
use query_graph::handler::{
    argument_values_equal, compact_responses, compare_args, compare_scalars, compare_values,
    find_original_result_from_args, index_by, unwrap_value, ArgsToResult, ArgumentEntry,
    ArgumentValue, CompactedResponse,
};
use query_graph::response_ir::{select_fields, Item};
use query_graph::schema::FieldSelection;
use query_graph::value::PrismaValue;
use std::str::FromStr;

fn decimal(text: &str) -> PrismaValue {
    PrismaValue::Float(BigDecimal::from_str(text).unwrap())
}

fn text(value: &str) -> PrismaValue {
    PrismaValue::String(value.to_string())
}

fn scalar(value: PrismaValue) -> ArgumentValue {
    ArgumentValue::Scalar(value)
}

fn entry(key: &str, value: ArgumentValue) -> ArgumentEntry {
    ArgumentEntry { key: key.to_string(), value }
}

fn wrapped(kind: &str, value: PrismaValue) -> ArgumentValue {
    ArgumentValue::Object(vec![entry("$type", scalar(text(kind))), entry("value", scalar(value))])
}

// The first second of 2020, UTC.
const NEW_YEAR: i64 = 1_577_836_800;

#[test]
fn a_text_agrees_with_the_date_it_reads_as() {
    let date = PrismaValue::DateTime(DateTime { timestamp: NEW_YEAR, nanos: 0, offset: 0 });
    assert_eq!(compare_scalars(&text("2020-01-01T00:00:00Z"), &date), Some(true));
    assert_eq!(compare_scalars(&date, &text("2020-01-01T00:00:00.000Z")), Some(true));
    // The same point in time under another offset.
    assert_eq!(compare_scalars(&text("2020-01-01T02:00:00+02:00"), &date), Some(true));
    assert_eq!(compare_scalars(&text("2020-01-01T00:00:01Z"), &date), Some(false));
    assert_eq!(compare_scalars(&text("yesterday"), &date), Some(false));
}

#[test]
fn a_text_that_is_no_date_agrees_with_no_date_that_cannot_be_written() {
    let date = PrismaValue::DateTime(DateTime { timestamp: i64::MAX, nanos: 0, offset: 0 });
    assert_eq!(compare_scalars(&text("yesterday"), &date), Some(false));
}

#[test]
fn integers_of_both_widths_agree_if_equal() {
    assert_eq!(compare_scalars(&PrismaValue::Int(7), &PrismaValue::BigInt(7)), Some(true));
    assert_eq!(compare_scalars(&PrismaValue::BigInt(7), &PrismaValue::Int(8)), Some(false));
    // As values of one kind they are not equal.
    assert_eq!(
        argument_values_equal(&scalar(PrismaValue::Int(7)), &scalar(PrismaValue::BigInt(7))),
        Some(false)
    );
}

#[test]
fn an_integer_agrees_with_the_number_it_equals() {
    assert_eq!(compare_scalars(&PrismaValue::Int(1), &decimal("1.00")), Some(true));
    assert_eq!(compare_scalars(&decimal("1"), &PrismaValue::BigInt(1)), Some(true));
    assert_eq!(compare_scalars(&PrismaValue::Int(1), &decimal("1.5")), Some(false));
    assert_eq!(compare_scalars(&PrismaValue::Int(-3), &decimal("-30e-1")), Some(true));
}

#[test]
fn an_integer_agrees_with_the_text_that_reads_as_it() {
    assert_eq!(compare_scalars(&PrismaValue::Int(12), &text("12")), Some(true));
    assert_eq!(compare_scalars(&text("12.0"), &PrismaValue::BigInt(12)), Some(true));
    assert_eq!(compare_scalars(&PrismaValue::Int(12), &text("13")), Some(false));
    assert_eq!(compare_scalars(&PrismaValue::Int(12), &text("twelve")), Some(false));
}

#[test]
fn a_number_agrees_with_the_text_that_reads_as_it() {
    assert_eq!(compare_scalars(&decimal("1.5"), &text("1.50")), Some(true));
    assert_eq!(compare_scalars(&text("15e-1"), &decimal("1.5")), Some(true));
    assert_eq!(compare_scalars(&decimal("1.5"), &text("1.6")), Some(false));
    assert_eq!(compare_scalars(&decimal("1.5"), &text("")), Some(false));
}

#[test]
fn numbers_with_scales_far_apart_are_not_compared() {
    assert_eq!(compare_scalars(&PrismaValue::Int(1), &decimal("1e-1001")), None);
    assert_eq!(compare_scalars(&decimal("1e-1001"), &decimal("1")), None);
    assert_eq!(compare_scalars(&PrismaValue::Int(0), &decimal("0e-1000")), Some(true));
    // A text with a long exponent is not read.
    assert_eq!(compare_scalars(&PrismaValue::Int(1), &text("1e-9223372036854775808")), None);
    assert_eq!(compare_scalars(&PrismaValue::Int(1), &text("1e-000000000000000001")), None);
    assert_eq!(compare_scalars(&PrismaValue::Int(1), &text("1e-00000000000000001")), Some(false));
    assert_eq!(compare_scalars(&PrismaValue::Int(10), &text("1e+0000000000000001")), Some(true));
}

#[test]
fn the_name_of_an_enum_value_agrees_with_its_text() {
    let name = PrismaValue::Enum("ADMIN".to_string());
    assert_eq!(compare_scalars(&name, &text("ADMIN")), Some(true));
    assert_eq!(compare_scalars(&text("ADMIN"), &name), Some(true));
    assert_eq!(compare_scalars(&text("admin"), &name), Some(false));
}

#[test]
fn other_scalars_agree_if_equal() {
    assert_eq!(compare_scalars(&text("a"), &text("a")), Some(true));
    assert_eq!(compare_scalars(&text("a"), &text("b")), Some(false));
    assert_eq!(compare_scalars(&PrismaValue::Null, &PrismaValue::Null), Some(true));
    assert_eq!(compare_scalars(&PrismaValue::Boolean(true), &text("true")), Some(false));
    assert_eq!(
        compare_scalars(&PrismaValue::Bytes(vec![1, 2]), &PrismaValue::Bytes(vec![1, 2])),
        Some(true)
    );
    assert_eq!(
        compare_scalars(&PrismaValue::Bytes(vec![1, 2]), &PrismaValue::Bytes(vec![1, 3])),
        Some(false)
    );
    assert_eq!(compare_scalars(&decimal("2.50"), &decimal("2.5")), Some(true));
    assert_eq!(
        compare_scalars(
            &PrismaValue::DateTime(DateTime { timestamp: 5, nanos: 1, offset: 0 }),
            &PrismaValue::DateTime(DateTime { timestamp: 5, nanos: 1, offset: 3600 })
        ),
        Some(true)
    );
}

#[test]
fn an_object_that_wraps_a_value_is_compared_by_the_value() {
    let wrapped_one = wrapped("BigInt", text("1"));
    assert_eq!(compare_values(&wrapped_one, &scalar(PrismaValue::Int(1))), Some(true));
    assert_eq!(compare_values(&scalar(PrismaValue::Int(1)), &wrapped_one), Some(true));
    assert_eq!(compare_values(&scalar(PrismaValue::Int(2)), &wrapped_one), Some(false));
    // Wrapped twice.
    let twice = ArgumentValue::Object(vec![
        entry("value", wrapped("Decimal", text("1.0"))),
        entry("$type", scalar(text("Json"))),
    ]);
    assert_eq!(compare_values(&twice, &scalar(decimal("1"))), Some(true));
    // Both wrapped.
    assert_eq!(
        compare_values(&wrapped("BigInt", text("1")), &wrapped("Decimal", decimal("1"))),
        Some(true)
    );
}

#[test]
fn an_object_wraps_a_value_only_with_exactly_a_type_and_a_value() {
    let one = scalar(PrismaValue::Int(1));
    assert_eq!(unwrap_value(&vec![entry("$type", scalar(text("x"))), entry("value", scalar(PrismaValue::Int(1)))]), Some(&one));
    assert_eq!(unwrap_value(&vec![entry("value", scalar(PrismaValue::Int(1))), entry("$type", scalar(text("x")))]), Some(&one));
    assert_eq!(unwrap_value(&vec![entry("value", scalar(PrismaValue::Int(1)))]), None);
    assert_eq!(
        unwrap_value(&vec![
            entry("$type", scalar(text("x"))),
            entry("value", scalar(PrismaValue::Int(1))),
            entry("more", scalar(PrismaValue::Int(1)))
        ]),
        None
    );
    assert_eq!(
        unwrap_value(&vec![entry("type", scalar(text("x"))), entry("value", scalar(PrismaValue::Int(1)))]),
        None
    );
    assert_eq!(unwrap_value(&vec![]), None);
}

#[test]
fn objects_are_equal_whatever_the_order_of_their_entries() {
    let a = ArgumentValue::Object(vec![
        entry("x", scalar(PrismaValue::Int(1))),
        entry("y", scalar(text("b"))),
    ]);
    let b = ArgumentValue::Object(vec![
        entry("y", scalar(text("b"))),
        entry("x", scalar(PrismaValue::Int(1))),
    ]);
    let c = ArgumentValue::Object(vec![
        entry("y", scalar(text("b"))),
        entry("x", scalar(PrismaValue::Int(2))),
    ]);
    assert_eq!(compare_values(&a, &b), Some(true));
    assert_eq!(compare_values(&a, &c), Some(false));
    assert_eq!(
        compare_values(&a, &ArgumentValue::Object(vec![entry("x", scalar(PrismaValue::Int(1)))])),
        Some(false)
    );
    // What does not wrap a value is compared as it is: an integer is no text.
    assert_eq!(
        compare_values(
            &ArgumentValue::Object(vec![entry("x", scalar(PrismaValue::Int(1)))]),
            &ArgumentValue::Object(vec![entry("x", scalar(text("1")))])
        ),
        Some(false)
    );
}

#[test]
fn lists_are_equal_place_by_place() {
    let a = ArgumentValue::List(vec![scalar(PrismaValue::Int(1)), scalar(PrismaValue::Int(2))]);
    let b = ArgumentValue::List(vec![scalar(PrismaValue::Int(1)), scalar(PrismaValue::Int(2))]);
    let c = ArgumentValue::List(vec![scalar(PrismaValue::Int(2)), scalar(PrismaValue::Int(1))]);
    assert_eq!(compare_values(&a, &b), Some(true));
    assert_eq!(compare_values(&a, &c), Some(false));
    assert_eq!(compare_values(&a, &ArgumentValue::List(vec![])), Some(false));
    assert_eq!(compare_values(&a, &scalar(PrismaValue::Int(1))), Some(false));
    // The first pair that differs decides, also before a pair that cannot be compared.
    let d = ArgumentValue::List(vec![scalar(PrismaValue::Int(1)), scalar(decimal("1e-2000"))]);
    let e = ArgumentValue::List(vec![scalar(PrismaValue::Int(2)), scalar(decimal("1"))]);
    let f = ArgumentValue::List(vec![scalar(PrismaValue::Int(1)), scalar(decimal("1"))]);
    assert_eq!(compare_values(&d, &e), Some(false));
    assert_eq!(compare_values(&d, &f), None);
}

#[test]
fn arguments_agree_if_the_shorter_list_is_found_in_the_longer() {
    let query = vec![entry("id", scalar(PrismaValue::Int(1))), entry("name", scalar(text("Bob")))];
    let record = vec![
        entry("name", scalar(text("Bob"))),
        entry("id", scalar(PrismaValue::BigInt(1))),
        entry("age", scalar(PrismaValue::Int(18))),
    ];
    assert!(compare_args(&query, &record));
    assert!(compare_args(&record, &query));
    let other = vec![entry("id", scalar(PrismaValue::Int(2))), entry("name", scalar(text("Bob")))];
    assert!(!compare_args(&other, &record));
    // Of two lists of one length, the left must be found in the right.
    let renamed = vec![entry("id", scalar(PrismaValue::Int(1))), entry("nick", scalar(text("Bob")))];
    assert!(!compare_args(&query, &renamed));
    assert!(compare_args(&vec![], &record));
    // What cannot be compared does not agree.
    assert!(!compare_args(
        &vec![entry("id", scalar(PrismaValue::Int(1)))],
        &vec![entry("id", scalar(decimal("1e-2000")))]
    ));
}

#[test]
fn the_first_record_with_agreeing_arguments_is_found() {
    let records = vec![
        ArgsToResult { args: vec![entry("id", scalar(PrismaValue::Int(1)))], result: 0 },
        ArgsToResult { args: vec![entry("id", scalar(PrismaValue::Int(2)))], result: 1 },
        ArgsToResult { args: vec![entry("id", scalar(PrismaValue::Int(2)))], result: 2 },
    ];
    let two = vec![entry("id", wrapped("BigInt", text("2")))];
    assert_eq!(find_original_result_from_args(&records, &two), Some(1));
    let three = vec![entry("id", scalar(PrismaValue::Int(3)))];
    assert_eq!(find_original_result_from_args(&records, &three), None);
    assert_eq!(find_original_result_from_args(&vec![], &two), None);
}

fn person(id: i64, name: &str, age: i64) -> IndexMap<String, Item> {
    let mut row = IndexMap::new();
    row.insert("id".to_string(), Item::Value(PrismaValue::Int(id)));
    row.insert("name".to_string(), Item::Value(text(name)));
    row.insert("age".to_string(), Item::Value(PrismaValue::Int(age)));
    row.insert("tags".to_string(), Item::List(vec![Item::Value(text("a"))]));
    row
}

#[test]
fn records_are_indexed_by_the_scalars_under_the_keys() {
    let rows = vec![person(1, "Bob", 18), person(2, "Alice", 27)];
    let keys = vec!["name".to_string(), "tags".to_string(), "id".to_string(), "missing".to_string()];
    assert_eq!(
        index_by(&rows, &keys),
        vec![
            ArgsToResult {
                args: vec![entry("name", scalar(text("Bob"))), entry("id", scalar(PrismaValue::Int(1)))],
                result: 0
            },
            ArgsToResult {
                args: vec![
                    entry("name", scalar(text("Alice"))),
                    entry("id", scalar(PrismaValue::Int(2)))
                ],
                result: 1
            },
        ]
    );
}

#[test]
fn a_record_is_reduced_to_the_selected_fields_in_its_own_order() {
    let selected = select_fields(
        &person(1, "Bob", 18),
        &FieldSelection { fields: vec!["age".to_string(), "id".to_string(), "nothing".to_string()] },
    );
    let pairs: Vec<(String, Item)> = selected.into_iter().collect();
    assert_eq!(
        pairs,
        vec![
            ("id".to_string(), Item::Value(PrismaValue::Int(1))),
            ("age".to_string(), Item::Value(PrismaValue::Int(18))),
        ]
    );
}

#[test]
fn each_query_of_a_compacted_batch_gets_its_record() {
    let rows = vec![person(1, "Bob", 18), person(2, "Alice", 27)];
    let keys = vec!["id".to_string(), "name".to_string()];
    let arguments = vec![
        vec![entry("id", scalar(PrismaValue::Int(2))), entry("name", scalar(text("Alice")))],
        vec![entry("id", scalar(PrismaValue::Int(3))), entry("name", scalar(text("Carol")))],
        vec![entry("id", scalar(PrismaValue::Int(1))), entry("name", scalar(text("Bob")))],
        vec![entry("id", scalar(PrismaValue::Int(2))), entry("name", scalar(text("Alice")))],
    ];
    let selection = FieldSelection { fields: vec!["id".to_string(), "age".to_string()] };

    let mut alice = IndexMap::new();
    alice.insert("id".to_string(), Item::Value(PrismaValue::Int(2)));
    alice.insert("age".to_string(), Item::Value(PrismaValue::Int(27)));
    let mut bob = IndexMap::new();
    bob.insert("id".to_string(), Item::Value(PrismaValue::Int(1)));
    bob.insert("age".to_string(), Item::Value(PrismaValue::Int(18)));

    assert_eq!(
        compact_responses(&rows, &keys, &arguments, &selection, false),
        vec![
            CompactedResponse::Data(alice.clone()),
            CompactedResponse::Null,
            CompactedResponse::Data(bob.clone()),
            CompactedResponse::Data(alice.clone()),
        ]
    );
    assert_eq!(
        compact_responses(&rows, &keys, &arguments, &selection, true),
        vec![
            CompactedResponse::Data(alice.clone()),
            CompactedResponse::RecordRequiredButNotFound(
                "No record was found for a query.".to_string()
            ),
            CompactedResponse::Data(bob),
            CompactedResponse::Data(alice),
        ]
    );
    assert_eq!(compact_responses(&rows, &keys, &vec![], &selection, true), vec![]);
}
