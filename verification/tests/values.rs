use bigdecimal::BigDecimal;
use query_graph::datetime::{read_datetime, write_datetime, DateTime};
use query_graph::decimal::{decimals_agree, is_readable_decimal, read_decimal};
use query_graph::filter::{Filter, RecordFilter, ScalarCondition, ScalarFilter};
use query_graph::interpreter::{project_rows, project_selection, QueryResult};
use query_graph::schema::FieldSelection;
use query_graph::value::{FieldValue, PrismaValue, SelectionResult};
use std::str::FromStr;

#[test]
fn a_decimal_text_is_read_if_it_is_short() {
    assert_eq!(read_decimal("12.50"), Some(BigDecimal::from_str("12.5").unwrap()));
    assert_eq!(read_decimal("-1e3"), Some(BigDecimal::from(-1000)));
    assert_eq!(read_decimal("twelve"), None);
    assert_eq!(read_decimal(""), None);
    assert!(is_readable_decimal("1e123456789012345678"));
    assert!(!is_readable_decimal("1e1234567890123456789"));
    assert!(is_readable_decimal("1E-12345678901234567"));
    assert!(!is_readable_decimal("1E-1234567890123456789"));
    assert!(is_readable_decimal(&"1".repeat(1024)));
    assert!(!is_readable_decimal(&"1".repeat(1025)));
    assert_eq!(read_decimal(&"1".repeat(1025)), None);
    assert!(is_readable_decimal(""));
    assert!(is_readable_decimal("e"));
}

#[test]
fn decimals_are_compared_if_their_scales_are_close() {
    let one = BigDecimal::from(1);
    assert_eq!(decimals_agree(&one, &BigDecimal::from_str("1.000").unwrap()), Some(true));
    assert_eq!(decimals_agree(&one, &BigDecimal::from_str("1.001").unwrap()), Some(false));
    assert_eq!(decimals_agree(&one, &BigDecimal::from_str("10e-1").unwrap()), Some(true));
    assert_eq!(decimals_agree(&one, &BigDecimal::from_str("1e-1000").unwrap()), Some(false));
    assert_eq!(decimals_agree(&one, &BigDecimal::from_str("1e-1001").unwrap()), None);
    assert_eq!(decimals_agree(&BigDecimal::from_str("1e1001").unwrap(), &one), None);
    assert_eq!(decimals_agree(&BigDecimal::from_str("1e1000").unwrap(), &one), Some(false));
}

#[test]
fn a_date_is_read_from_its_text() {
    assert_eq!(
        read_datetime("2020-01-01T00:00:00Z"),
        Some(DateTime { timestamp: 1_577_836_800, nanos: 0, offset: 0 })
    );
    assert_eq!(
        read_datetime("2020-01-01T01:30:00.25+01:30"),
        Some(DateTime { timestamp: 1_577_836_800, nanos: 250_000_000, offset: 5400 })
    );
    assert_eq!(read_datetime("2020-01-01"), None);
    assert_eq!(read_datetime(""), None);
}

#[test]
fn a_date_is_written_with_milliseconds() {
    assert_eq!(
        write_datetime(&DateTime { timestamp: 1_577_836_800, nanos: 0, offset: 0 }),
        Some("2020-01-01T00:00:00.000Z".to_string())
    );
    assert_eq!(
        write_datetime(&DateTime { timestamp: 1_577_836_800, nanos: 250_999_999, offset: 5400 }),
        Some("2020-01-01T01:30:00.250+01:30".to_string())
    );
    assert_eq!(
        write_datetime(&DateTime { timestamp: 1_577_836_800, nanos: 0, offset: -3600 }),
        Some("2019-12-31T23:00:00.000-01:00".to_string())
    );
}

#[test]
fn a_date_out_of_range_is_not_written() {
    assert_eq!(write_datetime(&DateTime { timestamp: 253_402_387_200, nanos: 0, offset: 0 }), None);
    assert_eq!(write_datetime(&DateTime { timestamp: -62_167_305_601, nanos: 0, offset: 0 }), None);
    assert_eq!(write_datetime(&DateTime { timestamp: 0, nanos: 1_000_000_000, offset: 0 }), None);
    assert_eq!(write_datetime(&DateTime { timestamp: 0, nanos: 0, offset: 86_400 }), None);
    assert_eq!(write_datetime(&DateTime { timestamp: 0, nanos: 0, offset: -86_400 }), None);
    // The bounds themselves are written.
    assert_eq!(
        write_datetime(&DateTime { timestamp: 253_402_387_199, nanos: 999_999_999, offset: 86_399 }),
        Some("+10000-01-02T23:59:58.999+24:00".to_string())
    );
    assert_eq!(
        write_datetime(&DateTime { timestamp: -62_167_305_600, nanos: 0, offset: -86_399 }),
        Some("-0001-12-30T00:00:01.000-24:00".to_string())
    );
}

#[test]
fn a_copy_of_a_value_is_the_same_value() {
    let values = vec![
        PrismaValue::String("a".to_string()),
        PrismaValue::Boolean(true),
        PrismaValue::Enum("A".to_string()),
        PrismaValue::Int(-1),
        PrismaValue::BigInt(i64::MAX),
        PrismaValue::Float(BigDecimal::from_str("12.50").unwrap()),
        PrismaValue::DateTime(DateTime { timestamp: 1, nanos: 2, offset: 3 }),
        PrismaValue::Json("{}".to_string()),
        PrismaValue::Bytes(vec![0, 255]),
        PrismaValue::Null,
    ];
    for value in &values {
        assert_eq!(&value.clone(), value);
    }
    match PrismaValue::Float(BigDecimal::from_str("12.50").unwrap()).clone() {
        PrismaValue::Float(copy) => {
            assert_eq!(copy.as_bigint_and_exponent(), BigDecimal::from_str("12.50").unwrap().as_bigint_and_exponent())
        }
        other => panic!("unexpected value {:?}", other),
    }
}

fn pair(field: &str, value: i64) -> FieldValue {
    FieldValue { field: field.to_string(), value: PrismaValue::Int(value) }
}

#[test]
fn a_row_is_reduced_to_the_selected_fields_in_its_own_order() {
    let row = SelectionResult { pairs: vec![pair("a", 1), pair("b", 2), pair("c", 3), pair("a", 4)] };
    let selection = FieldSelection { fields: vec!["c".to_string(), "a".to_string(), "x".to_string()] };
    let projected = project_selection(&row, &selection);
    assert_eq!(projected, SelectionResult { pairs: vec![pair("a", 1), pair("c", 3), pair("a", 4)] });
    // Reducing once more changes nothing.
    assert_eq!(project_selection(&projected, &selection), projected);
    assert_eq!(
        project_selection(&row, &FieldSelection { fields: vec![] }),
        SelectionResult { pairs: vec![] }
    );
}

#[test]
fn the_rows_of_a_result_are_reduced_one_by_one() {
    let selection = FieldSelection { fields: vec!["id".to_string()] };
    let result = QueryResult::Rows(vec![
        SelectionResult { pairs: vec![pair("id", 1), pair("age", 30)] },
        SelectionResult { pairs: vec![pair("age", 31)] },
        SelectionResult { pairs: vec![pair("age", 32), pair("id", 3)] },
    ]);
    let projected = project_rows(&result, &selection);
    assert_eq!(
        projected,
        vec![
            SelectionResult { pairs: vec![pair("id", 1)] },
            SelectionResult { pairs: vec![] },
            SelectionResult { pairs: vec![pair("id", 3)] },
        ]
    );
    assert_eq!(project_rows(&QueryResult::Rows(projected.clone()), &selection), projected);
    assert_eq!(project_rows(&QueryResult::Count(5), &selection), vec![]);
}

#[test]
fn filters_are_built_from_rows_and_selectors() {
    let row = SelectionResult { pairs: vec![pair("a", 1), pair("b", 2)] };
    assert_eq!(
        Filter::from_selection(&row),
        Filter::And(vec![
            Filter::Scalar(ScalarFilter {
                field: "a".to_string(),
                condition: ScalarCondition::Equals(PrismaValue::Int(1))
            }),
            Filter::Scalar(ScalarFilter {
                field: "b".to_string(),
                condition: ScalarCondition::Equals(PrismaValue::Int(2))
            }),
        ])
    );
    assert_eq!(Filter::empty(), Filter::And(vec![]));
    assert_eq!(Filter::or(vec![Filter::empty()]), Filter::Or(vec![Filter::And(vec![])]));
    assert_eq!(
        RecordFilter::from_selectors(vec![row.clone()]),
        RecordFilter { filter: Filter::And(vec![]), selectors: Some(vec![row]) }
    );
    assert_eq!(
        RecordFilter::from_filter(Filter::Not(vec![])),
        RecordFilter { filter: Filter::Not(vec![]), selectors: None }
    );
    let nested = Filter::Or(vec![
        Filter::And(vec![Filter::Scalar(ScalarFilter {
            field: "a".to_string(),
            condition: ScalarCondition::In(vec![PrismaValue::Int(1), PrismaValue::Null]),
        })]),
        Filter::Not(vec![Filter::Scalar(ScalarFilter {
            field: "b".to_string(),
            condition: ScalarCondition::NotEquals(PrismaValue::String("x".to_string())),
        })]),
    ]);
    assert_eq!(nested.clone(), nested);
}
