//! The builder of aggregations.

use crate::document::{
    argument_named, lookup, without_argument, FieldInput, FieldInputView, FieldPair,
    FieldPairView, ParsedArgument, ParsedArgumentView, ParsedField, ParsedFieldView,
    ParsedInputField, ParsedInputFieldView, ParsedInputMap, ParsedInputValue,
    ParsedInputValueView,
};
use crate::error::{QueryGraphBuilderError, QueryGraphBuilderErrorView};
use crate::filter::Filter;
use crate::query_ast::{
    AggregateRecordsQuery, AggregateRecordsQueryView, AggregationSelection,
    AggregationSelectionView, OrderBy, OrderByView, QueryArguments, QueryArgumentsView,
    ReadQuery, ReadQueryView, SelectionTree, SelectionTreeView,
};
use crate::schema::{Model, ModelView};
use crate::value::{FieldValue, FieldValueView, PrismaValue, PrismaValueView, SelectionResult};
use vstd::prelude::*;
use vstd::string::*;

verus! {

/// The selected fields with what is selected below each, in order.
pub open spec fn selection_tree(fields: Seq<FieldPairView>) -> Seq<SelectionTreeView> {
    fields.map_values(
        |field: FieldPairView| SelectionTreeView { name: field.name, nested: field.nested_fields },
    )
}

/// The selected fields with what is selected below each, in order.
pub fn collect_selection_tree(fields: &Vec<FieldPair>) -> (r: Vec<SelectionTree>)
    ensures
        r.deep_view() == selection_tree(fields.deep_view()),
{
    let mut tree: Vec<SelectionTree> = Vec::new();
    let mut i: usize = 0;
    while i < fields.len()
        invariant
            i <= fields.len(),
            tree.len() == i,
            forall|j: int|
                0 <= j < i ==> tree[j]@ == (SelectionTreeView {
                    name: fields[j]@.name,
                    nested: fields[j]@.nested_fields,
                }),
        decreases fields.len() - i,
    {
        let nested = match &fields[i].nested_fields {
            Some(names) => {
                let copy = names.clone();
                assert(copy.deep_view() =~= names.deep_view());
                Some(copy)
            },
            None => None,
        };
        tree.push(SelectionTree { name: fields[i].name.clone(), nested });
        i += 1;
    }
    assert(tree.deep_view() =~= selection_tree(fields.deep_view()));
    tree
}

/// The message of the error for a selected field that is no scalar field of the model.
pub open spec fn unknown_field_message() -> Seq<char> {
    "The selected field is not a scalar field of the model."@
}

/// The message of the error for an aggregation without fields to aggregate.
pub open spec fn nothing_selected_message() -> Seq<char> {
    "Expected at least one selection for aggregate."@
}

/// The message of the error for an argument that does not hold what its name asks for.
pub open spec fn malformed_argument_message() -> Seq<char> {
    "The argument does not have the expected shape."@
}

/// The message of the error for arguments that can only be met by processing records in
/// memory.
pub open spec fn inmemory_message() -> Seq<char> {
    "Unable to process combination of query arguments for aggregation query. Please note that it is not possible at the moment to have a null-cursor, or a cursor and orderBy combination that not stable (unique)."@
}

/// The names other than `_all`, in order, if all of them are scalar fields of the model.
pub open spec fn aggregated_fields(names: Seq<Seq<char>>, model: ModelView) -> Result<
    Seq<Seq<char>>,
    QueryGraphBuilderErrorView,
>
    decreases names.len(),
{
    if names.len() == 0 {
        Ok(Seq::empty())
    } else {
        match aggregated_fields(names.drop_last(), model) {
            Err(error) => Err(error),
            Ok(before) => if names.last() == "_all"@ {
                Ok(before)
            } else if model.has_scalar(names.last()) {
                Ok(before.push(names.last()))
            } else {
                Err(QueryGraphBuilderErrorView::InputError(unknown_field_message()))
            },
        }
    }
}

/// An error among the first `upto` names is the error of all names.
pub proof fn lemma_aggregated_error_stays(names: Seq<Seq<char>>, model: ModelView, upto: int)
    requires
        0 <= upto <= names.len(),
        aggregated_fields(names.take(upto), model) is Err,
    ensures
        aggregated_fields(names, model) == aggregated_fields(names.take(upto), model),
    decreases names.len() - upto,
{
    if upto < names.len() {
        assert(names.take(upto + 1).drop_last() =~= names.take(upto));
        lemma_aggregated_error_stays(names, model, upto + 1);
    } else {
        assert(names.take(upto) =~= names);
    }
}

/// The kinds of aggregation that aggregate the fields selected below them.
#[derive(Clone, Copy, Debug, PartialEq, Eq, Structural)]
pub enum AggregationKind {
    Count,
    Average,
    Sum,
    Min,
    Max,
}

/// The kind of aggregation that a selected field names, if it names one that aggregates the
/// fields selected below it.
pub open spec fn aggregation_kind(name: Seq<char>) -> Option<AggregationKind> {
    if name == "_count"@ {
        Some(AggregationKind::Count)
    } else if name == "avg"@ || name == "_avg"@ {
        Some(AggregationKind::Average)
    } else if name == "sum"@ || name == "_sum"@ {
        Some(AggregationKind::Sum)
    } else if name == "min"@ || name == "_min"@ {
        Some(AggregationKind::Min)
    } else if name == "max"@ || name == "_max"@ {
        Some(AggregationKind::Max)
    } else {
        None
    }
}

/// What a selected field asks to compute.
///
/// `count` counts the records. `_count` counts the records if `_all` is selected below it, and
/// the values of the other fields selected below it. `avg`, `sum`, `min` and `max`, with or
/// without an underscore in front, aggregate the fields selected below them. Any other name is
/// that of a scalar field whose value is taken. A field that is not a scalar field of the
/// model, and an aggregation with nothing selected below it, are errors.
pub open spec fn selector_of(field: FieldPairView, model: ModelView) -> Result<
    AggregationSelectionView,
    QueryGraphBuilderErrorView,
> {
    if field.name == "count"@ {
        Ok(AggregationSelectionView::Count { all: true, fields: Seq::empty() })
    } else {
        match aggregation_kind(field.name) {
            Some(kind) => match field.nested_fields {
                None => Err(QueryGraphBuilderErrorView::InputError(nothing_selected_message())),
                Some(names) => match aggregated_fields(names, model) {
                    Err(error) => Err(error),
                    Ok(fields) => Ok(
                        match kind {
                            AggregationKind::Count => AggregationSelectionView::Count {
                                all: names.contains("_all"@),
                                fields,
                            },
                            AggregationKind::Average => AggregationSelectionView::Average(fields),
                            AggregationKind::Sum => AggregationSelectionView::Sum(fields),
                            AggregationKind::Min => AggregationSelectionView::Min(fields),
                            AggregationKind::Max => AggregationSelectionView::Max(fields),
                        },
                    ),
                },
            },
            None => if model.has_scalar(field.name) {
                Ok(AggregationSelectionView::Field(field.name))
            } else {
                Err(QueryGraphBuilderErrorView::InputError(unknown_field_message()))
            },
        }
    }
}

/// What the selected fields ask to compute, in order, or the error of the first that is one.
pub open spec fn selectors_of(fields: Seq<FieldPairView>, model: ModelView) -> Result<
    Seq<AggregationSelectionView>,
    QueryGraphBuilderErrorView,
>
    decreases fields.len(),
{
    if fields.len() == 0 {
        Ok(Seq::empty())
    } else {
        match selectors_of(fields.drop_last(), model) {
            Err(error) => Err(error),
            Ok(before) => match selector_of(fields.last(), model) {
                Err(error) => Err(error),
                Ok(selector) => Ok(before.push(selector)),
            },
        }
    }
}

/// An error among the first `upto` fields is the error of all fields.
pub proof fn lemma_selectors_error_stays(fields: Seq<FieldPairView>, model: ModelView, upto: int)
    requires
        0 <= upto <= fields.len(),
        selectors_of(fields.take(upto), model) is Err,
    ensures
        selectors_of(fields, model) == selectors_of(fields.take(upto), model),
    decreases fields.len() - upto,
{
    if upto < fields.len() {
        assert(fields.take(upto + 1).drop_last() =~= fields.take(upto));
        lemma_selectors_error_stays(fields, model, upto + 1);
    } else {
        assert(fields.take(upto) =~= fields);
    }
}

fn unknown_field() -> (r: QueryGraphBuilderError)
    ensures
        r@ == QueryGraphBuilderErrorView::InputError(unknown_field_message()),
{
    QueryGraphBuilderError::InputError(
        String::from_str("The selected field is not a scalar field of the model."),
    )
}

fn resolve_fields(names: &Vec<String>, model: &Model) -> (r: Result<
    (bool, Vec<String>),
    QueryGraphBuilderError,
>)
    ensures
        match aggregated_fields(names.deep_view(), model@) {
            Ok(fields) => r is Ok && r->Ok_0.1.deep_view() == fields && r->Ok_0.0
                == names.deep_view().contains("_all"@),
            Err(error) => r is Err && r->Err_0@ == error,
        },
{
    let all_key = String::from_str("_all");
    let ghost all = names.deep_view();
    let mut fields: Vec<String> = Vec::new();
    let mut counts_all = false;
    let mut i: usize = 0;
    assert(all.take(0) =~= Seq::empty());
    assert(fields.deep_view() =~= Seq::empty());
    while i < names.len()
        invariant
            i <= names.len(),
            all == names.deep_view(),
            all_key@ == "_all"@,
            aggregated_fields(all.take(i as int), model@) == Ok::<
                Seq<Seq<char>>,
                QueryGraphBuilderErrorView,
            >(fields.deep_view()),
            counts_all == (exists|j: int| 0 <= j < i && (#[trigger] all[j]) == "_all"@),
        decreases names.len() - i,
    {
        assert(all.take(i + 1).drop_last() =~= all.take(i as int));
        if names[i] == all_key {
            counts_all = true;
        } else if model.has_scalar_field(&names[i]) {
            let ghost before = fields.deep_view();
            fields.push(names[i].clone());
            assert(fields.deep_view() =~= before.push(all[i as int]));
        } else {
            proof {
                lemma_aggregated_error_stays(all, model@, i + 1);
            }
            return Err(unknown_field());
        }
        i += 1;
    }
    assert(all.take(i as int) =~= all);
    assert(counts_all == all.contains("_all"@));
    Ok((counts_all, fields))
}

fn kind_of(name: &String) -> (r: Option<AggregationKind>)
    ensures
        r == aggregation_kind(name@),
{
    if *name == String::from_str("_count") {
        Some(AggregationKind::Count)
    } else if *name == String::from_str("avg") || *name == String::from_str("_avg") {
        Some(AggregationKind::Average)
    } else if *name == String::from_str("sum") || *name == String::from_str("_sum") {
        Some(AggregationKind::Sum)
    } else if *name == String::from_str("min") || *name == String::from_str("_min") {
        Some(AggregationKind::Min)
    } else if *name == String::from_str("max") || *name == String::from_str("_max") {
        Some(AggregationKind::Max)
    } else {
        None
    }
}

/// Resolves what a selected field asks to compute.
pub fn resolve_query(field: &FieldPair, model: &Model) -> (r: Result<
    AggregationSelection,
    QueryGraphBuilderError,
>)
    ensures
        match selector_of(field@, model@) {
            Ok(selector) => r is Ok && r->Ok_0@ == selector,
            Err(error) => r is Err && r->Err_0@ == error,
        },
{
    if field.name == String::from_str("count") {
        let fields: Vec<String> = Vec::new();
        assert(fields.deep_view() =~= Seq::empty());
        return Ok(AggregationSelection::Count { all: true, fields });
    }
    match kind_of(&field.name) {
        Some(kind) => match &field.nested_fields {
            None => Err(
                QueryGraphBuilderError::InputError(
                    String::from_str("Expected at least one selection for aggregate."),
                ),
            ),
            Some(names) => {
                let (all, fields) = resolve_fields(names, model)?;
                Ok(
                    match kind {
                        AggregationKind::Count => AggregationSelection::Count { all, fields },
                        AggregationKind::Average => AggregationSelection::Average(fields),
                        AggregationKind::Sum => AggregationSelection::Sum(fields),
                        AggregationKind::Min => AggregationSelection::Min(fields),
                        AggregationKind::Max => AggregationSelection::Max(fields),
                    },
                )
            },
        },
        None => if model.has_scalar_field(&field.name) {
            Ok(AggregationSelection::Field(field.name.clone()))
        } else {
            Err(unknown_field())
        },
    }
}

fn malformed_argument() -> (r: QueryGraphBuilderError)
    ensures
        r@ == QueryGraphBuilderErrorView::InputError(malformed_argument_message()),
{
    QueryGraphBuilderError::InputError(
        String::from_str("The argument does not have the expected shape."),
    )
}

/// The row that a cursor object spells out: its entries, which must all be scalars, in order.
pub open spec fn cursor_of(entries: Seq<ParsedInputFieldView>) -> Result<
    Seq<FieldValueView>,
    QueryGraphBuilderErrorView,
>
    decreases entries.len(),
{
    if entries.len() == 0 {
        Ok(Seq::empty())
    } else {
        match (cursor_of(entries.drop_last()), entries.last().value) {
            (Ok(before), FieldInputView::Scalar(value)) => Ok(
                before.push(FieldValueView { field: entries.last().name, value }),
            ),
            (Err(error), _) => Err(error),
            _ => Err(QueryGraphBuilderErrorView::InputError(malformed_argument_message())),
        }
    }
}

/// The ordering that an object spells out: each entry names a field and gives, as the name of
/// an enum value, the direction `asc` or `desc`.
pub open spec fn order_of(entries: Seq<ParsedInputFieldView>) -> Result<
    Seq<OrderByView>,
    QueryGraphBuilderErrorView,
>
    decreases entries.len(),
{
    if entries.len() == 0 {
        Ok(Seq::empty())
    } else {
        match (order_of(entries.drop_last()), entries.last().value) {
            (Ok(before), FieldInputView::Scalar(PrismaValueView::Enum(direction))) =>
                if direction == "asc"@ || direction == "desc"@ {
                Ok(
                    before.push(
                        OrderByView {
                            field: entries.last().name,
                            descending: direction == "desc"@,
                        },
                    ),
                )
            } else {
                Err(QueryGraphBuilderErrorView::InputError(malformed_argument_message()))
            },
            (Err(error), _) => Err(error),
            _ => Err(QueryGraphBuilderErrorView::InputError(malformed_argument_message())),
        }
    }
}

/// An error among the first `upto` entries of a cursor is the error of all entries.
pub proof fn lemma_cursor_error_stays(entries: Seq<ParsedInputFieldView>, upto: int)
    requires
        0 <= upto <= entries.len(),
        cursor_of(entries.take(upto)) is Err,
    ensures
        cursor_of(entries) == cursor_of(entries.take(upto)),
    decreases entries.len() - upto,
{
    if upto < entries.len() {
        assert(entries.take(upto + 1).drop_last() =~= entries.take(upto));
        lemma_cursor_error_stays(entries, upto + 1);
    } else {
        assert(entries.take(upto) =~= entries);
    }
}

/// An error among the first `upto` entries of an ordering is the error of all entries.
pub proof fn lemma_order_error_stays(entries: Seq<ParsedInputFieldView>, upto: int)
    requires
        0 <= upto <= entries.len(),
        order_of(entries.take(upto)) is Err,
    ensures
        order_of(entries) == order_of(entries.take(upto)),
    decreases entries.len() - upto,
{
    if upto < entries.len() {
        assert(entries.take(upto + 1).drop_last() =~= entries.take(upto));
        lemma_order_error_stays(entries, upto + 1);
    } else {
        assert(entries.take(upto) =~= entries);
    }
}

fn extract_cursor(map: ParsedInputMap) -> (r: Result<SelectionResult, QueryGraphBuilderError>)
    ensures
        match cursor_of(map@) {
            Ok(row) => r is Ok && r->Ok_0@ == row,
            Err(error) => r is Err && r->Err_0@ == error,
        },
{
    let ghost all = map@;
    let ghost items = map.fields@;
    let mut pairs: Vec<FieldValue> = Vec::new();
    assert(all.take(0) =~= Seq::empty());
    assert(pairs.deep_view() =~= Seq::empty());
    for entry in it: map.fields
        invariant
            it.seq() == items,
            all == map@,
            all.len() == items.len(),
            forall|j: int| 0 <= j < items.len() ==> all[j] == items[j]@,
            cursor_of(all.take(it.index() as int)) == Ok::<
                Seq<FieldValueView>,
                QueryGraphBuilderErrorView,
            >(pairs.deep_view()),
    {
        let ghost done = it.index() as int;
        assert(entry@ == all[done]);
        assert(all.take(done + 1).drop_last() =~= all.take(done));
        let ParsedInputField { name, value } = entry;
        match value {
            FieldInput::Scalar(value) => {
                let ghost before = pairs.deep_view();
                pairs.push(FieldValue { field: name, value });
                assert(pairs.deep_view() =~= before.push(
                    FieldValueView { field: name@, value: value@ },
                ));
            },
            FieldInput::Nested(_) => {
                proof {
                    lemma_cursor_error_stays(all, done + 1);
                }
                return Err(malformed_argument());
            },
        }
    }
    assert(all.take(all.len() as int) =~= all);
    Ok(SelectionResult { pairs })
}

fn extract_order(map: ParsedInputMap) -> (r: Result<Vec<OrderBy>, QueryGraphBuilderError>)
    ensures
        match order_of(map@) {
            Ok(order) => r is Ok && r->Ok_0.deep_view() == order,
            Err(error) => r is Err && r->Err_0@ == error,
        },
{
    let ghost all = map@;
    let ghost items = map.fields@;
    let ascending = String::from_str("asc");
    let descending = String::from_str("desc");
    let mut order: Vec<OrderBy> = Vec::new();
    assert(all.take(0) =~= Seq::empty());
    assert(order.deep_view() =~= Seq::empty());
    for entry in it: map.fields
        invariant
            it.seq() == items,
            all == map@,
            all.len() == items.len(),
            forall|j: int| 0 <= j < items.len() ==> all[j] == items[j]@,
            ascending@ == "asc"@,
            descending@ == "desc"@,
            order_of(all.take(it.index() as int)) == Ok::<
                Seq<OrderByView>,
                QueryGraphBuilderErrorView,
            >(order.deep_view()),
    {
        let ghost done = it.index() as int;
        assert(entry@ == all[done]);
        assert(all.take(done + 1).drop_last() =~= all.take(done));
        let ParsedInputField { name, value } = entry;
        let direction: Option<bool> = match &value {
            FieldInput::Scalar(PrismaValue::Enum(direction)) => if *direction == descending {
                Some(true)
            } else if *direction == ascending {
                Some(false)
            } else {
                None
            },
            _ => None,
        };
        match direction {
            Some(is_descending) => {
                let ghost before = order.deep_view();
                order.push(OrderBy { field: name, descending: is_descending });
                assert(order.deep_view() =~= before.push(
                    OrderByView { field: name@, descending: is_descending },
                ));
            },
            None => {
                proof {
                    lemma_order_error_stays(all, done + 1);
                }
                return Err(malformed_argument());
            },
        }
    }
    assert(all.take(all.len() as int) =~= all);
    Ok(order)
}

/// The integer that an argument holds; none where there is no argument.
pub open spec fn integer_of(argument: Option<ParsedArgumentView>) -> Result<
    Option<i64>,
    QueryGraphBuilderErrorView,
> {
    match argument {
        None => Ok(None),
        Some(
            ParsedArgumentView { value: ParsedInputValueView::Single(PrismaValueView::Int(i)), .. },
        ) => Ok(Some(i as i64)),
        Some(_) => Err(QueryGraphBuilderErrorView::InputError(malformed_argument_message())),
    }
}

fn extract_integer(argument: Option<ParsedArgument>) -> (r: Result<
    Option<i64>,
    QueryGraphBuilderError,
>)
    ensures
        match integer_of(argument.deep_view()) {
            Ok(integer) => r is Ok && r->Ok_0 == integer,
            Err(error) => r is Err && r->Err_0@ == error,
        },
{
    match argument {
        None => Ok(None),
        Some(ParsedArgument { value: ParsedInputValue::Single(PrismaValue::Int(i)), .. }) => Ok(
            Some(i),
        ),
        Some(_) => Err(malformed_argument()),
    }
}

/// The object that an argument holds, none where there is no argument.
pub open spec fn object_of(argument: Option<ParsedArgumentView>) -> Result<
    Option<Seq<ParsedInputFieldView>>,
    QueryGraphBuilderErrorView,
> {
    match argument {
        None => Ok(None),
        Some(ParsedArgumentView { value: ParsedInputValueView::Object(map), .. }) => Ok(Some(map)),
        Some(_) => Err(QueryGraphBuilderErrorView::InputError(malformed_argument_message())),
    }
}

/// Which records a read takes, as its arguments say.
///
/// `where` holds the filter, `orderBy` the ordering, `cursor` the row to begin at, `take` and
/// `skip` integers. Each may be missing. The error is that of the first of them, in this
/// order, that does not hold what it should.
pub open spec fn query_arguments(arguments: Seq<ParsedArgumentView>) -> Result<
    QueryArgumentsView,
    QueryGraphBuilderErrorView,
> {
    let without_where = without_argument(arguments, "where"@);
    let without_order = without_argument(without_where, "orderBy"@);
    let without_cursor = without_argument(without_order, "cursor"@);
    let without_take = without_argument(without_cursor, "take"@);
    let filter = match argument_named(arguments, "where"@) {
        None => Ok(None),
        Some(argument) => match argument.value.as_filter() {
            Ok(filter) => Ok(Some(filter)),
            Err(error) => Err(error),
        },
    };
    let order_by = match object_of(argument_named(without_where, "orderBy"@)) {
        Err(error) => Err(error),
        Ok(None) => Ok(Seq::empty()),
        Ok(Some(map)) => order_of(map),
    };
    let cursor = match object_of(argument_named(without_order, "cursor"@)) {
        Err(error) => Err(error),
        Ok(None) => Ok(None),
        Ok(Some(map)) => match cursor_of(map) {
            Ok(row) => Ok(Some(row)),
            Err(error) => Err(error),
        },
    };
    let take = integer_of(argument_named(without_cursor, "take"@));
    let skip = integer_of(argument_named(without_take, "skip"@));
    match (filter, order_by, cursor, take, skip) {
        (Err(error), _, _, _, _) => Err(error),
        (_, Err(error), _, _, _) => Err(error),
        (_, _, Err(error), _, _) => Err(error),
        (_, _, _, Err(error), _) => Err(error),
        (_, _, _, _, Err(error)) => Err(error),
        (Ok(filter), Ok(order_by), Ok(cursor), Ok(take), Ok(skip)) => Ok(
            QueryArgumentsView { filter, cursor, order_by, take, skip },
        ),
    }
}

/// Reads from the arguments of a read which records it takes.
pub fn extract_query_args(arguments: Vec<ParsedArgument>) -> (r: Result<
    QueryArguments,
    QueryGraphBuilderError,
>)
    ensures
        match query_arguments(arguments.deep_view()) {
            Ok(args) => r is Ok && r->Ok_0@ == args,
            Err(error) => r is Err && r->Err_0@ == error,
        },
{
    let mut arguments = arguments;
    let filter: Option<Filter> = match lookup(&mut arguments, "where") {
        Some(argument) => Some(argument.value.try_into_filter()?),
        None => None,
    };
    let order_by: Vec<OrderBy> = match lookup(&mut arguments, "orderBy") {
        None => {
            let none: Vec<OrderBy> = Vec::new();
            assert(none.deep_view() =~= Seq::empty());
            none
        },
        Some(ParsedArgument { value: ParsedInputValue::Object(map), .. }) => extract_order(map)?,
        Some(_) => {
            return Err(malformed_argument());
        },
    };
    let cursor: Option<SelectionResult> = match lookup(&mut arguments, "cursor") {
        None => None,
        Some(ParsedArgument { value: ParsedInputValue::Object(map), .. }) => Some(
            extract_cursor(map)?,
        ),
        Some(_) => {
            return Err(malformed_argument());
        },
    };
    let take = extract_integer(lookup(&mut arguments, "take"))?;
    let skip = extract_integer(lookup(&mut arguments, "skip"))?;
    Ok(QueryArguments { filter, cursor, order_by, take, skip })
}

impl QueryArgumentsView {
    /// Whether the cursor holds a null.
    pub open spec fn contains_null_cursor(self) -> bool {
        match self.cursor {
            Some(row) => exists|i: int| 0 <= i < row.len() && (#[trigger] row[i]).value is Null,
            None => false,
        }
    }

    /// Whether the order of the records is the same whenever they are read: nothing orders
    /// them otherwise, or a field that identifies the records of the model does.
    pub open spec fn is_stable_ordering(self, model: ModelView) -> bool {
        self.order_by.len() == 0 || exists|i: int|
            0 <= i < self.order_by.len() && model.primary_identifier.contains(
                (#[trigger] self.order_by[i]).field,
            )
    }

    /// Whether the records would have to be processed in memory: the cursor holds a null, or
    /// there is a cursor and the order of the records is not stable.
    pub open spec fn requires_inmemory_processing(self, model: ModelView) -> bool {
        self.contains_null_cursor() || (self.cursor is Some && !self.is_stable_ordering(model))
    }
}

/// Whether the records would have to be processed in memory.
pub fn requires_inmemory_processing(args: &QueryArguments, model: &Model) -> (r: bool)
    ensures
        r == args@.requires_inmemory_processing(model@),
{
    match &args.cursor {
        None => false,
        Some(row) => {
            let mut i: usize = 0;
            while i < row.pairs.len()
                invariant
                    i <= row.pairs.len(),
                    args.cursor == Some(*row),
                    forall|j: int| 0 <= j < i ==> !(row@[j].value is Null),
                decreases row.pairs.len() - i,
            {
                if matches!(row.pairs[i].value, PrismaValue::Null) {
                    assert(row@[i as int].value is Null);
                    return true;
                }
                i += 1;
            }
            if args.order_by.len() == 0 {
                return false;
            }
            let mut k: usize = 0;
            while k < args.order_by.len()
                invariant
                    k <= args.order_by.len(),
                    !args@.contains_null_cursor(),
                    args.cursor is Some,
                    args.order_by.len() > 0,
                    forall|j: int|
                        0 <= j < k ==> !model@.primary_identifier.contains(
                            args@.order_by[j].field,
                        ),
                decreases args.order_by.len() - k,
            {
                if model.primary_identifier.contains(&args.order_by[k].field) {
                    assert(model@.primary_identifier.contains(args@.order_by[k as int].field));
                    return false;
                }
                k += 1;
            }
            true
        },
    }
}

/// The aggregation that a request asks for.
///
/// The error is that of the arguments, else that of arguments that need processing in memory,
/// else that of the first selected field which is one.
pub open spec fn aggregate_query(field: ParsedFieldView, model: ModelView) -> Result<
    ReadQueryView,
    QueryGraphBuilderErrorView,
> {
    match query_arguments(field.arguments) {
        Err(error) => Err(error),
        Ok(args) => if args.requires_inmemory_processing(model) {
            Err(QueryGraphBuilderErrorView::InputError(inmemory_message()))
        } else {
            match selectors_of(field.selection(), model) {
                Err(error) => Err(error),
                Ok(selectors) => Ok(
                    ReadQueryView::AggregateRecordsQuery(
                        AggregateRecordsQueryView {
                            name: field.name,
                            alias: field.alias,
                            model: model.name,
                            selection_order: selection_tree(field.selection()),
                            args,
                            selectors,
                            group_by: Seq::empty(),
                            having: None,
                        },
                    ),
                ),
            }
        },
    }
}

/// Builds the aggregation that a request asks for.
pub fn aggregate(field: ParsedField, model: Model) -> (r: Result<
    ReadQuery,
    QueryGraphBuilderError,
>)
    ensures
        match aggregate_query(field@, model@) {
            Ok(query) => r is Ok && r->Ok_0@ == query,
            Err(error) => r is Err && r->Err_0@ == error,
        },
{
    let ParsedField { name, alias, arguments, nested_fields } = field;
    let nested_fields: Vec<FieldPair> = match nested_fields {
        Some(object) => object.fields,
        None => Vec::new(),
    };
    assert(nested_fields.deep_view() =~= field@.selection());
    let selection_order = collect_selection_tree(&nested_fields);
    let args = extract_query_args(arguments)?;

    // Reject what would need processing in memory: there is no aggregation in memory.
    if requires_inmemory_processing(&args, &model) {
        return Err(
            QueryGraphBuilderError::InputError(
                String::from_str(
                    "Unable to process combination of query arguments for aggregation query. Please note that it is not possible at the moment to have a null-cursor, or a cursor and orderBy combination that not stable (unique).",
                ),
            ),
        );
    }
    let ghost all = nested_fields.deep_view();
    let mut selectors: Vec<AggregationSelection> = Vec::new();
    let mut i: usize = 0;
    assert(all.take(0) =~= Seq::empty());
    assert(selectors.deep_view() =~= Seq::empty());
    while i < nested_fields.len()
        invariant
            i <= nested_fields.len(),
            all == nested_fields.deep_view(),
            all == field@.selection(),
            query_arguments(field@.arguments) == Ok::<
                QueryArgumentsView,
                QueryGraphBuilderErrorView,
            >(args@),
            !args@.requires_inmemory_processing(model@),
            selectors_of(all.take(i as int), model@) == Ok::<
                Seq<AggregationSelectionView>,
                QueryGraphBuilderErrorView,
            >(selectors.deep_view()),
        decreases nested_fields.len() - i,
    {
        assert(all.take(i + 1).drop_last() =~= all.take(i as int));
        match resolve_query(&nested_fields[i], &model) {
            Ok(selector) => {
                let ghost before = selectors.deep_view();
                selectors.push(selector);
                assert(selectors.deep_view() =~= before.push(selector@));
            },
            Err(error) => {
                proof {
                    lemma_selectors_error_stays(all, model@, i + 1);
                }
                return Err(error);
            },
        }
        i += 1;
    }
    assert(all.take(i as int) =~= all);
    let group_by: Vec<String> = Vec::new();
    assert(group_by.deep_view() =~= Seq::empty());
    Ok(
        ReadQuery::AggregateRecordsQuery(
            AggregateRecordsQuery {
                name,
                alias,
                model: model.name,
                selection_order,
                args,
                selectors,
                group_by,
                having: None,
            },
        ),
    )
}

} // verus!
