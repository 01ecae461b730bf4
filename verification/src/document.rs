//! A client request as it arrives here: a selected field with its arguments, the predicates and
//! values in them already parsed.

use crate::error::{QueryGraphBuilderError, QueryGraphBuilderErrorView};
use crate::filter::{Filter, FilterView};
use crate::value::{PrismaValue, PrismaValueView};
use vstd::prelude::*;
use vstd::string::*;

verus! {

/// A field selected below the operation: its name, the name the client wants it under, and the
/// fields selected below it if it is a relation or an aggregate.
#[derive(Debug, PartialEq, Eq)]
pub struct FieldPair {
    pub name: String,
    pub alias: Option<String>,
    pub nested_fields: Option<Vec<String>>,
}

/// The mathematical model of a [`FieldPair`].
pub struct FieldPairView {
    pub name: Seq<char>,
    pub alias: Option<Seq<char>>,
    pub nested_fields: Option<Seq<Seq<char>>>,
}

impl FieldPairView {
    /// The name under which the client receives the field.
    pub open spec fn output_name(self) -> Seq<char> {
        match self.alias {
            Some(alias) => alias,
            None => self.name,
        }
    }
}

impl View for FieldPair {
    type V = FieldPairView;

    open spec fn view(&self) -> FieldPairView {
        FieldPairView {
            name: self.name@,
            alias: self.alias.deep_view(),
            nested_fields: self.nested_fields.deep_view(),
        }
    }
}

impl DeepView for FieldPair {
    type V = FieldPairView;

    open spec fn deep_view(&self) -> FieldPairView {
        self@
    }
}

/// The fields selected below an operation.
#[derive(Debug, PartialEq, Eq)]
pub struct ParsedObject {
    pub fields: Vec<FieldPair>,
}

impl View for ParsedObject {
    type V = Seq<FieldPairView>;

    open spec fn view(&self) -> Seq<FieldPairView> {
        self.fields.deep_view()
    }
}

impl DeepView for ParsedObject {
    type V = Seq<FieldPairView>;

    open spec fn deep_view(&self) -> Seq<FieldPairView> {
        self@
    }
}

/// A write on the records behind a relation field, nested in the write of the parent: the name
/// of the operation and the selectors of the records it addresses.
#[derive(Debug, PartialEq, Eq)]
pub struct NestedOperation {
    pub name: String,
    pub selectors: Vec<Filter>,
}

/// The mathematical model of a [`NestedOperation`].
pub struct NestedOperationView {
    pub name: Seq<char>,
    pub selectors: Seq<FilterView>,
}

impl View for NestedOperation {
    type V = NestedOperationView;

    open spec fn view(&self) -> NestedOperationView {
        NestedOperationView { name: self.name@, selectors: self.selectors.deep_view() }
    }
}

impl DeepView for NestedOperation {
    type V = NestedOperationView;

    open spec fn deep_view(&self) -> NestedOperationView {
        self@
    }
}

/// What a data map assigns to a field.
#[derive(Debug, PartialEq, Eq)]
pub enum FieldInput {
    /// A value for a scalar field.
    Scalar(PrismaValue),
    /// Writes on the records behind a relation field.
    Nested(Vec<NestedOperation>),
}

/// The mathematical model of a [`FieldInput`].
pub enum FieldInputView {
    Scalar(PrismaValueView),
    Nested(Seq<NestedOperationView>),
}

impl View for FieldInput {
    type V = FieldInputView;

    open spec fn view(&self) -> FieldInputView {
        match self {
            FieldInput::Scalar(v) => FieldInputView::Scalar(v@),
            FieldInput::Nested(ops) => FieldInputView::Nested(ops.deep_view()),
        }
    }
}

/// One entry of a data map.
#[derive(Debug, PartialEq, Eq)]
pub struct ParsedInputField {
    pub name: String,
    pub value: FieldInput,
}

/// The mathematical model of a [`ParsedInputField`].
pub struct ParsedInputFieldView {
    pub name: Seq<char>,
    pub value: FieldInputView,
}

impl View for ParsedInputField {
    type V = ParsedInputFieldView;

    open spec fn view(&self) -> ParsedInputFieldView {
        ParsedInputFieldView { name: self.name@, value: self.value@ }
    }
}

impl DeepView for ParsedInputField {
    type V = ParsedInputFieldView;

    open spec fn deep_view(&self) -> ParsedInputFieldView {
        self@
    }
}

/// The data of a write: what each named field is to become, in the order given.
#[derive(Debug, PartialEq, Eq)]
pub struct ParsedInputMap {
    pub fields: Vec<ParsedInputField>,
}

impl View for ParsedInputMap {
    type V = Seq<ParsedInputFieldView>;

    open spec fn view(&self) -> Seq<ParsedInputFieldView> {
        self.fields.deep_view()
    }
}

/// The value of an argument.
#[derive(Debug, PartialEq, Eq)]
pub enum ParsedInputValue {
    Single(PrismaValue),
    Filter(Filter),
    Object(ParsedInputMap),
}

/// The mathematical model of a [`ParsedInputValue`].
pub enum ParsedInputValueView {
    Single(PrismaValueView),
    Filter(FilterView),
    Object(Seq<ParsedInputFieldView>),
}

impl View for ParsedInputValue {
    type V = ParsedInputValueView;

    open spec fn view(&self) -> ParsedInputValueView {
        match self {
            ParsedInputValue::Single(v) => ParsedInputValueView::Single(v@),
            ParsedInputValue::Filter(f) => ParsedInputValueView::Filter(f@),
            ParsedInputValue::Object(m) => ParsedInputValueView::Object(m@),
        }
    }
}

/// The message of the error for an argument that should hold a predicate and does not.
pub open spec fn not_a_filter_message() -> Seq<char> {
    "Expected the argument to be a filter object."@
}

/// The message of the error for an argument that should hold a data map and does not.
pub open spec fn not_a_map_message() -> Seq<char> {
    "Expected the argument to be an input object."@
}

impl ParsedInputValueView {
    /// The predicate that the value holds, or the error if it holds something else.
    pub open spec fn as_filter(self) -> Result<FilterView, QueryGraphBuilderErrorView> {
        match self {
            ParsedInputValueView::Filter(f) => Ok(f),
            _ => Err(QueryGraphBuilderErrorView::InputError(not_a_filter_message())),
        }
    }

    /// The data map that the value holds, or the error if it holds something else.
    pub open spec fn as_map(self) -> Result<
        Seq<ParsedInputFieldView>,
        QueryGraphBuilderErrorView,
    > {
        match self {
            ParsedInputValueView::Object(m) => Ok(m),
            _ => Err(QueryGraphBuilderErrorView::InputError(not_a_map_message())),
        }
    }
}

impl ParsedInputValue {
    /// The predicate that the value holds.
    pub fn try_into_filter(self) -> (r: Result<Filter, QueryGraphBuilderError>)
        ensures
            match self@.as_filter() {
                Ok(f) => r is Ok && r->Ok_0@ == f,
                Err(e) => r is Err && r->Err_0@ == e,
            },
    {
        match self {
            ParsedInputValue::Filter(f) => Ok(f),
            _ => Err(
                QueryGraphBuilderError::InputError(
                    String::from_str("Expected the argument to be a filter object."),
                ),
            ),
        }
    }

    /// The data map that the value holds.
    pub fn try_into_map(self) -> (r: Result<ParsedInputMap, QueryGraphBuilderError>)
        ensures
            match self@.as_map() {
                Ok(m) => r is Ok && r->Ok_0@ == m,
                Err(e) => r is Err && r->Err_0@ == e,
            },
    {
        match self {
            ParsedInputValue::Object(m) => Ok(m),
            _ => Err(
                QueryGraphBuilderError::InputError(
                    String::from_str("Expected the argument to be an input object."),
                ),
            ),
        }
    }
}

/// A named argument of an operation.
#[derive(Debug, PartialEq, Eq)]
pub struct ParsedArgument {
    pub name: String,
    pub value: ParsedInputValue,
}

/// The mathematical model of a [`ParsedArgument`].
pub struct ParsedArgumentView {
    pub name: Seq<char>,
    pub value: ParsedInputValueView,
}

impl View for ParsedArgument {
    type V = ParsedArgumentView;

    open spec fn view(&self) -> ParsedArgumentView {
        ParsedArgumentView { name: self.name@, value: self.value@ }
    }
}

impl DeepView for ParsedArgument {
    type V = ParsedArgumentView;

    open spec fn deep_view(&self) -> ParsedArgumentView {
        self@
    }
}

/// The position of the first argument of that name, or the number of arguments if none has it.
pub open spec fn argument_position(arguments: Seq<ParsedArgumentView>, name: Seq<char>) -> int
    decreases arguments.len(),
{
    if arguments.len() == 0 {
        0
    } else if arguments[0].name == name {
        0
    } else {
        1 + argument_position(arguments.drop_first(), name)
    }
}

/// Whether an argument of that name is among `arguments`.
pub open spec fn has_argument(arguments: Seq<ParsedArgumentView>, name: Seq<char>) -> bool {
    argument_position(arguments, name) < arguments.len()
}

/// The first argument of that name.
pub open spec fn argument_named(arguments: Seq<ParsedArgumentView>, name: Seq<char>) -> Option<
    ParsedArgumentView,
> {
    if has_argument(arguments, name) {
        Some(arguments[argument_position(arguments, name)])
    } else {
        None
    }
}

/// The arguments without the first of that name.
pub open spec fn without_argument(arguments: Seq<ParsedArgumentView>, name: Seq<char>) -> Seq<
    ParsedArgumentView,
> {
    if has_argument(arguments, name) {
        arguments.remove(argument_position(arguments, name))
    } else {
        arguments
    }
}

/// Takes the first argument of that name out of the list.
pub fn lookup(arguments: &mut Vec<ParsedArgument>, name: &str) -> (r: Option<ParsedArgument>)
    ensures
        r.deep_view() == argument_named(old(arguments).deep_view(), name@),
        final(arguments).deep_view() == without_argument(old(arguments).deep_view(), name@),
{
    let key = String::from_str(name);
    let ghost all = arguments.deep_view();
    let mut i: usize = 0;
    assert(all.skip(0) =~= all);
    while i < arguments.len()
        invariant
            i <= arguments.len(),
            arguments.deep_view() == all,
            *arguments == *old(arguments),
            key@ == name@,
            argument_position(all, name@) == i + argument_position(all.skip(i as int), name@),
        decreases arguments.len() - i,
    {
        let ghost rest = all.skip(i as int);
        assert(rest[0] == all[i as int]);
        assert(rest.drop_first() =~= all.skip(i + 1));
        if arguments[i].name == key {
            let found = arguments.remove(i);
            assert(arguments.deep_view() =~= all.remove(i as int));
            return Some(found);
        }
        i += 1;
    }
    None
}

/// The operation that the client asks for: its name, its arguments, and the fields selected of
/// its result.
#[derive(Debug, PartialEq, Eq)]
pub struct ParsedField {
    pub name: String,
    pub alias: Option<String>,
    pub arguments: Vec<ParsedArgument>,
    pub nested_fields: Option<ParsedObject>,
}

/// The mathematical model of a [`ParsedField`].
pub struct ParsedFieldView {
    pub name: Seq<char>,
    pub alias: Option<Seq<char>>,
    pub arguments: Seq<ParsedArgumentView>,
    pub nested_fields: Option<Seq<FieldPairView>>,
}

impl ParsedFieldView {
    /// Whether a selected field has fields selected below it.
    pub open spec fn has_nested_selection(self) -> bool {
        match self.nested_fields {
            Some(fields) => exists|i: int|
                0 <= i < fields.len() && (#[trigger] fields[i]).nested_fields is Some,
            None => false,
        }
    }

    /// The fields selected of the result; none if the request selects nothing.
    pub open spec fn selection(self) -> Seq<FieldPairView> {
        match self.nested_fields {
            Some(fields) => fields,
            None => Seq::empty(),
        }
    }
}

impl View for ParsedField {
    type V = ParsedFieldView;

    open spec fn view(&self) -> ParsedFieldView {
        ParsedFieldView {
            name: self.name@,
            alias: self.alias.deep_view(),
            arguments: self.arguments.deep_view(),
            nested_fields: self.nested_fields.deep_view(),
        }
    }
}

impl DeepView for ParsedField {
    type V = ParsedFieldView;

    open spec fn deep_view(&self) -> ParsedFieldView {
        self@
    }
}

impl ParsedField {
    /// Whether a selected field has fields selected below it.
    pub fn has_nested_selection(&self) -> (r: bool)
        ensures
            r == self@.has_nested_selection(),
    {
        match &self.nested_fields {
            Some(object) => {
                let mut i: usize = 0;
                while i < object.fields.len()
                    invariant
                        i <= object.fields.len(),
                        self.nested_fields == Some(*object),
                        forall|j: int| 0 <= j < i ==> object@[j].nested_fields is None,
                    decreases object.fields.len() - i,
                {
                    if object.fields[i].nested_fields.is_some() {
                        assert(self@.nested_fields == Some(object@));
                        assert(object@[i as int].nested_fields is Some);
                        return true;
                    }
                    i += 1;
                }
                false
            },
            None => false,
        }
    }
}

} // verus!
