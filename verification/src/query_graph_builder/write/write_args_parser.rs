//! Sorts the data of a write into scalar assignments and writes nested under relation fields.

use crate::document::{
    FieldInput, FieldInputView, NestedOperation, NestedOperationView, ParsedInputField,
    ParsedInputFieldView, ParsedInputMap,
};
use crate::error::{QueryGraphBuilderError, QueryGraphBuilderErrorView};
use crate::query_ast::WriteArgs;
use crate::schema::{
    lemma_relation_position_bounds, Model, ModelView, RelationField, RelationFieldView,
};
use crate::value::{FieldValue, FieldValueView, PrismaValue};
use vstd::prelude::*;
use vstd::string::*;

verus! {

/// The writes nested under one relation field.
#[derive(Debug, PartialEq, Eq)]
pub struct NestedWrite {
    pub relation_field: RelationField,
    pub operations: Vec<NestedOperation>,
}

/// The mathematical model of a [`NestedWrite`].
pub struct NestedWriteView {
    pub relation_field: RelationFieldView,
    pub operations: Seq<NestedOperationView>,
}

impl View for NestedWrite {
    type V = NestedWriteView;

    open spec fn view(&self) -> NestedWriteView {
        NestedWriteView {
            relation_field: self.relation_field@,
            operations: self.operations.deep_view(),
        }
    }
}

impl DeepView for NestedWrite {
    type V = NestedWriteView;

    open spec fn deep_view(&self) -> NestedWriteView {
        self@
    }
}

/// The data of a write, sorted: the scalar assignments, and the nested writes by relation field.
#[derive(Debug, PartialEq, Eq)]
pub struct WriteArgsParser {
    pub args: WriteArgs,
    pub nested: Vec<NestedWrite>,
}

/// The mathematical model of a [`WriteArgsParser`].
pub struct WriteArgsParserView {
    pub args: Seq<FieldValueView>,
    pub nested: Seq<NestedWriteView>,
}

impl View for WriteArgsParser {
    type V = WriteArgsParserView;

    open spec fn view(&self) -> WriteArgsParserView {
        WriteArgsParserView { args: self.args@, nested: self.nested.deep_view() }
    }
}

/// The message of the error for a value given to a field that the model does not have as a
/// scalar field.
pub open spec fn unknown_scalar_message() -> Seq<char> {
    "A value was given for a field that is not a scalar field of the model."@
}

/// The message of the error for nested writes under a field that the model does not have as a
/// relation field.
pub open spec fn unknown_relation_message() -> Seq<char> {
    "Nested writes were given for a field that is not a relation field of the model."@
}

/// What one entry adds to the entries sorted before it.
///
/// A value goes to the scalar assignments if the model has a scalar field of the entry's name;
/// a null for a relation field is dropped; nested writes go under the relation field of the
/// entry's name. Anything else is an error.
pub open spec fn sort_entry(
    model: ModelView,
    sorted: WriteArgsParserView,
    entry: ParsedInputFieldView,
) -> Result<WriteArgsParserView, QueryGraphBuilderErrorView> {
    match entry.value {
        FieldInputView::Scalar(value) => if model.has_scalar(entry.name) {
            Ok(
                WriteArgsParserView {
                    args: sorted.args.push(FieldValueView { field: entry.name, value }),
                    ..sorted
                },
            )
        } else if model.has_relation(entry.name) && value is Null {
            Ok(sorted)
        } else {
            Err(QueryGraphBuilderErrorView::InputError(unknown_scalar_message()))
        },
        FieldInputView::Nested(operations) => if model.has_relation(entry.name) {
            Ok(
                WriteArgsParserView {
                    nested: sorted.nested.push(
                        NestedWriteView {
                            relation_field: model.relation_fields[model.relation_position(
                                entry.name,
                            )],
                            operations,
                        },
                    ),
                    ..sorted
                },
            )
        } else {
            Err(QueryGraphBuilderErrorView::InputError(unknown_relation_message()))
        },
    }
}

/// The entries of a data map, sorted, or the error of the first entry that cannot be sorted.
pub open spec fn sort_entries(model: ModelView, entries: Seq<ParsedInputFieldView>) -> Result<
    WriteArgsParserView,
    QueryGraphBuilderErrorView,
>
    decreases entries.len(),
{
    if entries.len() == 0 {
        Ok(WriteArgsParserView { args: Seq::empty(), nested: Seq::empty() })
    } else {
        match sort_entries(model, entries.drop_last()) {
            Ok(sorted) => sort_entry(model, sorted, entries.last()),
            Err(error) => Err(error),
        }
    }
}

/// Whether an entry of the data map is named like a relation field of the model.
pub open spec fn names_relation(model: ModelView, entries: Seq<ParsedInputFieldView>) -> bool {
    exists|i: int| 0 <= i < entries.len() && model.has_relation((#[trigger] entries[i]).name)
}

impl WriteArgsParser {
    /// Sorts the entries of a data map.
    pub fn from(model: &Model, data_map: ParsedInputMap) -> (r: Result<
        WriteArgsParser,
        QueryGraphBuilderError,
    >)
        ensures
            match sort_entries(model@, data_map@) {
                Ok(sorted) => r is Ok && r->Ok_0@ == sorted,
                Err(error) => r is Err && r->Err_0@ == error,
            },
    {
        let ghost all = data_map@;
        let ghost entries = data_map.fields@;
        let mut args: Vec<FieldValue> = Vec::new();
        let mut nested: Vec<NestedWrite> = Vec::new();
        assert(all.take(0) =~= Seq::empty());
        assert(args.deep_view() =~= Seq::empty());
        assert(nested.deep_view() =~= Seq::empty());
        for entry in it: data_map.fields
            invariant
                it.seq() == entries,
                all == data_map@,
                all.len() == entries.len(),
                forall|j: int| 0 <= j < entries.len() ==> all[j] == entries[j]@,
                sort_entries(model@, all.take(it.index() as int)) == Ok::<
                    WriteArgsParserView,
                    QueryGraphBuilderErrorView,
                >(WriteArgsParserView { args: args.deep_view(), nested: nested.deep_view() }),
        {
            let ghost done = it.index() as int;
            assert(entry@ == all[done]);
            assert(all.take(done + 1).drop_last() =~= all.take(done));
            let ghost sorted = WriteArgsParserView {
                args: args.deep_view(),
                nested: nested.deep_view(),
            };
            let ParsedInputField { name, value } = entry;
            match value {
                FieldInput::Scalar(value) => {
                    if model.has_scalar_field(&name) {
                        args.push(FieldValue { field: name, value });
                        assert(args.deep_view() =~= sorted.args.push(
                            FieldValueView { field: name@, value: value@ },
                        ));
                    } else {
                        let relation = model.find_relation_field(&name);
                        let is_null = matches!(value, PrismaValue::Null);
                        if !(relation.is_some() && is_null) {
                            proof {
                                lemma_error_stays(model@, all, done + 1);
                            }
                            return Err(
                                QueryGraphBuilderError::InputError(
                                    String::from_str(
                                        "A value was given for a field that is not a scalar field of the model.",
                                    ),
                                ),
                            );
                        }
                    }
                },
                FieldInput::Nested(operations) => {
                    match model.find_relation_field(&name) {
                        Some(relation_field) => {
                            proof {
                                lemma_relation_position_bounds(model@.relation_fields, name@);
                            }
                            nested.push(
                                NestedWrite { relation_field: relation_field.clone(), operations },
                            );
                            assert(nested.deep_view() =~= sorted.nested.push(
                                NestedWriteView {
                                    relation_field: model@.relation_fields[model@.relation_position(
                                        name@,
                                    )],
                                    operations: operations.deep_view(),
                                },
                            ));
                        },
                        None => {
                            proof {
                                lemma_error_stays(model@, all, done + 1);
                            }
                            return Err(
                                QueryGraphBuilderError::InputError(
                                    String::from_str(
                                        "Nested writes were given for a field that is not a relation field of the model.",
                                    ),
                                ),
                            );
                        },
                    }
                },
            }
        }
        assert(all.take(all.len() as int) =~= all);
        Ok(WriteArgsParser { args: WriteArgs { args }, nested })
    }

    /// Whether an entry of the data map is named like a relation field of the model.
    pub fn has_nested_operation(model: &Model, data_map: &ParsedInputMap) -> (r: bool)
        ensures
            r == names_relation(model@, data_map@),
    {
        let mut i: usize = 0;
        while i < data_map.fields.len()
            invariant
                i <= data_map.fields.len(),
                forall|j: int| 0 <= j < i ==> !model@.has_relation(data_map@[j].name),
            decreases data_map.fields.len() - i,
        {
            if model.find_relation_field(&data_map.fields[i].name).is_some() {
                assert(model@.has_relation(data_map@[i as int].name));
                return true;
            }
            i += 1;
        }
        false
    }
}

/// An error among the first `upto` entries is the error of all entries.
pub proof fn lemma_error_stays(model: ModelView, entries: Seq<ParsedInputFieldView>, upto: int)
    requires
        0 <= upto <= entries.len(),
        sort_entries(model, entries.take(upto)) is Err,
    ensures
        sort_entries(model, entries) == sort_entries(model, entries.take(upto)),
    decreases entries.len() - upto,
{
    if upto < entries.len() {
        assert(entries.take(upto + 1).drop_last() =~= entries.take(upto));
        lemma_error_stays(model, entries, upto + 1);
    } else {
        assert(entries.take(upto) =~= entries);
    }
}

} // verus!
