//! The primitive database operations that the nodes of a query graph carry.

use crate::filter::{Filter, FilterView, RecordFilter, RecordFilterView};
use crate::datetime::DateTime;
use crate::schema::{FieldSelection, Model, RelationField, RelationFieldView};
use crate::value::{FieldValue, FieldValueView, PrismaValue, PrismaValueView, SelectionResult};
use vstd::prelude::*;

verus! {

/// The scalar assignments of a write, in the order in which the request gave them.
#[derive(Debug, PartialEq, Eq)]
pub struct WriteArgs {
    pub args: Vec<FieldValue>,
}

impl View for WriteArgs {
    type V = Seq<FieldValueView>;

    open spec fn view(&self) -> Seq<FieldValueView> {
        self.args.deep_view()
    }
}

/// Whether a value is assigned to the field.
pub open spec fn assigns(args: Seq<FieldValueView>, field: Seq<char>) -> bool {
    exists|i: int| 0 <= i < args.len() && (#[trigger] args[i]).field == field
}

/// The assignments, and behind them the time `now` for each of `fields`, in order, to which
/// nothing is assigned before.
pub open spec fn add_datetimes(
    args: Seq<FieldValueView>,
    fields: Seq<Seq<char>>,
    now: DateTime,
) -> Seq<FieldValueView>
    decreases fields.len(),
{
    if fields.len() == 0 {
        args
    } else {
        let before = add_datetimes(args, fields.drop_last(), now);
        if assigns(before, fields.last()) {
            before
        } else {
            before.push(
                FieldValueView { field: fields.last(), value: PrismaValueView::DateTime(now) },
            )
        }
    }
}

/// The assignments of a write with the time of the update: a write that assigns anything also
/// assigns the time `now` to each of `fields` to which it assigns nothing itself.
pub open spec fn with_datetimes(
    args: Seq<FieldValueView>,
    fields: Seq<Seq<char>>,
    now: DateTime,
) -> Seq<FieldValueView> {
    if args.len() == 0 {
        args
    } else {
        add_datetimes(args, fields, now)
    }
}

impl WriteArgs {
    /// Whether a value is assigned to the field.
    pub fn has_arg(&self, field: &String) -> (r: bool)
        ensures
            r == assigns(self@, field@),
    {
        let mut i: usize = 0;
        while i < self.args.len()
            invariant
                i <= self.args.len(),
                forall|j: int| 0 <= j < i ==> self@[j].field != field@,
            decreases self.args.len() - i,
        {
            if self.args[i].field == *field {
                assert(self@[i as int].field == field@);
                return true;
            }
            i += 1;
        }
        false
    }

    /// Assigns the time of the request to the fields of the model that hold the time of the
    /// last update, unless the write assigns nothing or assigns to the field itself.
    pub fn update_datetimes(&mut self, model: &Model, request_now: DateTime)
        ensures
            final(self)@ == with_datetimes(old(self)@, model@.updated_at_fields, request_now),
    {
        if self.args.len() == 0 {
            return ;
        }
        let ghost fields = model@.updated_at_fields;
        let mut i: usize = 0;
        assert(fields.take(0) =~= Seq::empty());
        while i < model.updated_at_fields.len()
            invariant
                i <= model.updated_at_fields.len(),
                fields == model@.updated_at_fields,
                old(self)@.len() > 0,
                self@ == add_datetimes(old(self)@, fields.take(i as int), request_now),
            decreases model.updated_at_fields.len() - i,
        {
            assert(fields.take(i + 1).drop_last() =~= fields.take(i as int));
            if !self.has_arg(&model.updated_at_fields[i]) {
                let ghost before = self@;
                self.args.push(
                    FieldValue {
                        field: model.updated_at_fields[i].clone(),
                        value: PrismaValue::DateTime(request_now),
                    },
                );
                assert(self@ =~= before.push(
                    FieldValueView {
                        field: fields[i as int],
                        value: PrismaValueView::DateTime(request_now),
                    },
                ));
            }
            i += 1;
        }
        assert(fields.take(i as int) =~= fields);
    }
}

impl Clone for WriteArgs {
    fn clone(&self) -> (r: Self)
        ensures
            r@ == self@,
    {
        let args = self.args.clone();
        assert(args.deep_view() =~= self.args.deep_view());
        WriteArgs { args }
    }
}

/// Reads the records that a relation field of each parent record points to.
#[derive(Debug, PartialEq, Eq)]
pub struct RelatedRecordsQuery {
    pub name: String,
    pub alias: Option<String>,
    pub parent_field: String,
    pub selection_order: Vec<String>,
}

/// The mathematical model of a [`RelatedRecordsQuery`].
pub struct RelatedRecordsQueryView {
    pub name: Seq<char>,
    pub alias: Option<Seq<char>>,
    pub parent_field: Seq<char>,
    pub selection_order: Seq<Seq<char>>,
}

impl View for RelatedRecordsQuery {
    type V = RelatedRecordsQueryView;

    open spec fn view(&self) -> RelatedRecordsQueryView {
        RelatedRecordsQueryView {
            name: self.name@,
            alias: self.alias.deep_view(),
            parent_field: self.parent_field@,
            selection_order: self.selection_order.deep_view(),
        }
    }
}

impl DeepView for RelatedRecordsQuery {
    type V = RelatedRecordsQueryView;

    open spec fn deep_view(&self) -> RelatedRecordsQueryView {
        self@
    }
}

/// Reads at most one record.
#[derive(Debug, PartialEq, Eq)]
pub struct RecordQuery {
    pub name: String,
    pub alias: Option<String>,
    pub model: String,
    pub filter: Option<Filter>,
    pub selected_fields: FieldSelection,
    pub nested: Vec<RelatedRecordsQuery>,
    pub selection_order: Vec<String>,
}

/// The mathematical model of a [`RecordQuery`].
pub struct RecordQueryView {
    pub name: Seq<char>,
    pub alias: Option<Seq<char>>,
    pub model: Seq<char>,
    pub filter: Option<FilterView>,
    pub selected_fields: Seq<Seq<char>>,
    pub nested: Seq<RelatedRecordsQueryView>,
    pub selection_order: Seq<Seq<char>>,
}

impl View for RecordQuery {
    type V = RecordQueryView;

    open spec fn view(&self) -> RecordQueryView {
        RecordQueryView {
            name: self.name@,
            alias: self.alias.deep_view(),
            model: self.model@,
            filter: self.filter.deep_view(),
            selected_fields: self.selected_fields@,
            nested: self.nested.deep_view(),
            selection_order: self.selection_order.deep_view(),
        }
    }
}

/// Reads every record that passes a filter.
#[derive(Debug, PartialEq, Eq)]
pub struct ManyRecordsQuery {
    pub name: String,
    pub alias: Option<String>,
    pub model: String,
    pub filter: Filter,
    pub selected_fields: FieldSelection,
    pub nested: Vec<RelatedRecordsQuery>,
    pub selection_order: Vec<String>,
}

/// The mathematical model of a [`ManyRecordsQuery`].
pub struct ManyRecordsQueryView {
    pub name: Seq<char>,
    pub alias: Option<Seq<char>>,
    pub model: Seq<char>,
    pub filter: FilterView,
    pub selected_fields: Seq<Seq<char>>,
    pub nested: Seq<RelatedRecordsQueryView>,
    pub selection_order: Seq<Seq<char>>,
}

impl View for ManyRecordsQuery {
    type V = ManyRecordsQueryView;

    open spec fn view(&self) -> ManyRecordsQueryView {
        ManyRecordsQueryView {
            name: self.name@,
            alias: self.alias.deep_view(),
            model: self.model@,
            filter: self.filter@,
            selected_fields: self.selected_fields@,
            nested: self.nested.deep_view(),
            selection_order: self.selection_order.deep_view(),
        }
    }
}

/// One field by which the records of a read are ordered.
#[derive(Debug, PartialEq, Eq)]
pub struct OrderBy {
    pub field: String,
    pub descending: bool,
}

/// The mathematical model of an [`OrderBy`].
pub struct OrderByView {
    pub field: Seq<char>,
    pub descending: bool,
}

impl View for OrderBy {
    type V = OrderByView;

    open spec fn view(&self) -> OrderByView {
        OrderByView { field: self.field@, descending: self.descending }
    }
}

impl DeepView for OrderBy {
    type V = OrderByView;

    open spec fn deep_view(&self) -> OrderByView {
        self@
    }
}

/// Which records a read takes, and in which order.
#[derive(Debug, PartialEq, Eq)]
pub struct QueryArguments {
    pub filter: Option<Filter>,
    pub cursor: Option<SelectionResult>,
    pub order_by: Vec<OrderBy>,
    pub take: Option<i64>,
    pub skip: Option<i64>,
}

/// The mathematical model of a [`QueryArguments`].
pub struct QueryArgumentsView {
    pub filter: Option<FilterView>,
    pub cursor: Option<Seq<FieldValueView>>,
    pub order_by: Seq<OrderByView>,
    pub take: Option<i64>,
    pub skip: Option<i64>,
}

impl View for QueryArguments {
    type V = QueryArgumentsView;

    open spec fn view(&self) -> QueryArgumentsView {
        QueryArgumentsView {
            filter: self.filter.deep_view(),
            cursor: self.cursor.deep_view(),
            order_by: self.order_by.deep_view(),
            take: self.take,
            skip: self.skip,
        }
    }
}

/// One thing to compute over the records that an aggregation takes.
#[derive(Debug, PartialEq, Eq)]
pub enum AggregationSelection {
    /// The value of a scalar field.
    Field(String),
    /// The number of records, if `all`, and the number of values of each of the fields.
    Count { all: bool, fields: Vec<String> },
    Average(Vec<String>),
    Sum(Vec<String>),
    Min(Vec<String>),
    Max(Vec<String>),
}

/// The mathematical model of an [`AggregationSelection`].
pub enum AggregationSelectionView {
    Field(Seq<char>),
    Count { all: bool, fields: Seq<Seq<char>> },
    Average(Seq<Seq<char>>),
    Sum(Seq<Seq<char>>),
    Min(Seq<Seq<char>>),
    Max(Seq<Seq<char>>),
}

impl View for AggregationSelection {
    type V = AggregationSelectionView;

    open spec fn view(&self) -> AggregationSelectionView {
        match self {
            AggregationSelection::Field(name) => AggregationSelectionView::Field(name@),
            AggregationSelection::Count { all, fields } => AggregationSelectionView::Count {
                all: *all,
                fields: fields.deep_view(),
            },
            AggregationSelection::Average(fields) => AggregationSelectionView::Average(
                fields.deep_view(),
            ),
            AggregationSelection::Sum(fields) => AggregationSelectionView::Sum(fields.deep_view()),
            AggregationSelection::Min(fields) => AggregationSelectionView::Min(fields.deep_view()),
            AggregationSelection::Max(fields) => AggregationSelectionView::Max(fields.deep_view()),
        }
    }
}

impl DeepView for AggregationSelection {
    type V = AggregationSelectionView;

    open spec fn deep_view(&self) -> AggregationSelectionView {
        self@
    }
}

/// A selected field and the fields selected below it, as the client ordered them.
#[derive(Debug, PartialEq, Eq)]
pub struct SelectionTree {
    pub name: String,
    pub nested: Option<Vec<String>>,
}

/// The mathematical model of a [`SelectionTree`].
pub struct SelectionTreeView {
    pub name: Seq<char>,
    pub nested: Option<Seq<Seq<char>>>,
}

impl View for SelectionTree {
    type V = SelectionTreeView;

    open spec fn view(&self) -> SelectionTreeView {
        SelectionTreeView { name: self.name@, nested: self.nested.deep_view() }
    }
}

impl DeepView for SelectionTree {
    type V = SelectionTreeView;

    open spec fn deep_view(&self) -> SelectionTreeView {
        self@
    }
}

/// Computes values over the records that pass a filter.
#[derive(Debug, PartialEq, Eq)]
pub struct AggregateRecordsQuery {
    pub name: String,
    pub alias: Option<String>,
    pub model: String,
    pub selection_order: Vec<SelectionTree>,
    pub args: QueryArguments,
    pub selectors: Vec<AggregationSelection>,
    pub group_by: Vec<String>,
    pub having: Option<Filter>,
}

/// The mathematical model of an [`AggregateRecordsQuery`].
pub struct AggregateRecordsQueryView {
    pub name: Seq<char>,
    pub alias: Option<Seq<char>>,
    pub model: Seq<char>,
    pub selection_order: Seq<SelectionTreeView>,
    pub args: QueryArgumentsView,
    pub selectors: Seq<AggregationSelectionView>,
    pub group_by: Seq<Seq<char>>,
    pub having: Option<FilterView>,
}

impl View for AggregateRecordsQuery {
    type V = AggregateRecordsQueryView;

    open spec fn view(&self) -> AggregateRecordsQueryView {
        AggregateRecordsQueryView {
            name: self.name@,
            alias: self.alias.deep_view(),
            model: self.model@,
            selection_order: self.selection_order.deep_view(),
            args: self.args@,
            selectors: self.selectors.deep_view(),
            group_by: self.group_by.deep_view(),
            having: self.having.deep_view(),
        }
    }
}

/// An operation that only reads.
#[derive(Debug, PartialEq, Eq)]
pub enum ReadQuery {
    RecordQuery(RecordQuery),
    ManyRecordsQuery(ManyRecordsQuery),
    AggregateRecordsQuery(AggregateRecordsQuery),
}

/// The mathematical model of a [`ReadQuery`].
pub enum ReadQueryView {
    RecordQuery(RecordQueryView),
    ManyRecordsQuery(ManyRecordsQueryView),
    AggregateRecordsQuery(AggregateRecordsQueryView),
}

impl View for ReadQuery {
    type V = ReadQueryView;

    open spec fn view(&self) -> ReadQueryView {
        match self {
            ReadQuery::RecordQuery(q) => ReadQueryView::RecordQuery(q@),
            ReadQuery::ManyRecordsQuery(q) => ReadQueryView::ManyRecordsQuery(q@),
            ReadQuery::AggregateRecordsQuery(q) => ReadQueryView::AggregateRecordsQuery(q@),
        }
    }
}

/// Updates one record and hands back the selected fields of the updated record.
#[derive(Debug, PartialEq, Eq)]
pub struct UpdateRecordWithSelection {
    pub name: String,
    pub model: String,
    pub record_filter: RecordFilter,
    pub args: WriteArgs,
    pub selected_fields: FieldSelection,
    pub selection_order: Vec<String>,
}

/// The mathematical model of an [`UpdateRecordWithSelection`].
pub struct UpdateRecordWithSelectionView {
    pub name: Seq<char>,
    pub model: Seq<char>,
    pub record_filter: RecordFilterView,
    pub args: Seq<FieldValueView>,
    pub selected_fields: Seq<Seq<char>>,
    pub selection_order: Seq<Seq<char>>,
}

impl View for UpdateRecordWithSelection {
    type V = UpdateRecordWithSelectionView;

    open spec fn view(&self) -> UpdateRecordWithSelectionView {
        UpdateRecordWithSelectionView {
            name: self.name@,
            model: self.model@,
            record_filter: self.record_filter@,
            args: self.args@,
            selected_fields: self.selected_fields@,
            selection_order: self.selection_order.deep_view(),
        }
    }
}

/// Updates one record and hands back only what identifies it.
#[derive(Debug, PartialEq, Eq)]
pub struct UpdateRecordWithoutSelection {
    pub model: String,
    pub record_filter: RecordFilter,
    pub args: WriteArgs,
}

/// The mathematical model of an [`UpdateRecordWithoutSelection`].
pub struct UpdateRecordWithoutSelectionView {
    pub model: Seq<char>,
    pub record_filter: RecordFilterView,
    pub args: Seq<FieldValueView>,
}

impl View for UpdateRecordWithoutSelection {
    type V = UpdateRecordWithoutSelectionView;

    open spec fn view(&self) -> UpdateRecordWithoutSelectionView {
        UpdateRecordWithoutSelectionView {
            model: self.model@,
            record_filter: self.record_filter@,
            args: self.args@,
        }
    }
}

/// Updates one record.
#[derive(Debug, PartialEq, Eq)]
pub enum UpdateRecord {
    WithSelection(UpdateRecordWithSelection),
    WithoutSelection(UpdateRecordWithoutSelection),
}

/// The mathematical model of an [`UpdateRecord`].
pub enum UpdateRecordView {
    WithSelection(UpdateRecordWithSelectionView),
    WithoutSelection(UpdateRecordWithoutSelectionView),
}

impl UpdateRecordView {
    /// The filter of the update.
    pub open spec fn record_filter(self) -> RecordFilterView {
        match self {
            UpdateRecordView::WithSelection(u) => u.record_filter,
            UpdateRecordView::WithoutSelection(u) => u.record_filter,
        }
    }

    /// The same update with another filter.
    pub open spec fn with_record_filter(self, record_filter: RecordFilterView) -> UpdateRecordView {
        match self {
            UpdateRecordView::WithSelection(u) => UpdateRecordView::WithSelection(
                UpdateRecordWithSelectionView { record_filter, ..u },
            ),
            UpdateRecordView::WithoutSelection(u) => UpdateRecordView::WithoutSelection(
                UpdateRecordWithoutSelectionView { record_filter, ..u },
            ),
        }
    }
}

impl View for UpdateRecord {
    type V = UpdateRecordView;

    open spec fn view(&self) -> UpdateRecordView {
        match self {
            UpdateRecord::WithSelection(u) => UpdateRecordView::WithSelection(u@),
            UpdateRecord::WithoutSelection(u) => UpdateRecordView::WithoutSelection(u@),
        }
    }
}

/// The fields that an update of many records hands back of each record it updated.
#[derive(Debug, PartialEq, Eq)]
pub struct UpdateManyRecordsFields {
    pub fields: FieldSelection,
    pub order: Vec<String>,
    pub nested: Vec<RelatedRecordsQuery>,
}

/// The mathematical model of an [`UpdateManyRecordsFields`].
pub struct UpdateManyRecordsFieldsView {
    pub fields: Seq<Seq<char>>,
    pub order: Seq<Seq<char>>,
    pub nested: Seq<RelatedRecordsQueryView>,
}

impl View for UpdateManyRecordsFields {
    type V = UpdateManyRecordsFieldsView;

    open spec fn view(&self) -> UpdateManyRecordsFieldsView {
        UpdateManyRecordsFieldsView {
            fields: self.fields@,
            order: self.order.deep_view(),
            nested: self.nested.deep_view(),
        }
    }
}

impl DeepView for UpdateManyRecordsFields {
    type V = UpdateManyRecordsFieldsView;

    open spec fn deep_view(&self) -> UpdateManyRecordsFieldsView {
        self@
    }
}

/// Updates every record that the filter admits.
#[derive(Debug, PartialEq, Eq)]
pub struct UpdateManyRecords {
    pub name: String,
    pub model: String,
    pub record_filter: RecordFilter,
    pub args: WriteArgs,
    pub selected_fields: Option<UpdateManyRecordsFields>,
    pub limit: Option<usize>,
}

/// The mathematical model of an [`UpdateManyRecords`].
pub struct UpdateManyRecordsView {
    pub name: Seq<char>,
    pub model: Seq<char>,
    pub record_filter: RecordFilterView,
    pub args: Seq<FieldValueView>,
    pub selected_fields: Option<UpdateManyRecordsFieldsView>,
    pub limit: Option<usize>,
}

impl View for UpdateManyRecords {
    type V = UpdateManyRecordsView;

    open spec fn view(&self) -> UpdateManyRecordsView {
        UpdateManyRecordsView {
            name: self.name@,
            model: self.model@,
            record_filter: self.record_filter@,
            args: self.args@,
            selected_fields: self.selected_fields.deep_view(),
            limit: self.limit,
        }
    }
}

/// Connects one parent record to child records across a many-to-many relation.
#[derive(Debug, PartialEq, Eq)]
pub struct ConnectRecords {
    pub parent_id: Option<SelectionResult>,
    pub child_ids: Vec<SelectionResult>,
    pub relation_field: RelationField,
}

/// The mathematical model of a [`ConnectRecords`].
pub struct ConnectRecordsView {
    pub parent_id: Option<Seq<FieldValueView>>,
    pub child_ids: Seq<Seq<FieldValueView>>,
    pub relation_field: RelationFieldView,
}

impl View for ConnectRecords {
    type V = ConnectRecordsView;

    open spec fn view(&self) -> ConnectRecordsView {
        ConnectRecordsView {
            parent_id: self.parent_id.deep_view(),
            child_ids: self.child_ids.deep_view(),
            relation_field: self.relation_field@,
        }
    }
}

/// An operation that changes records.
#[derive(Debug, PartialEq, Eq)]
pub enum WriteQuery {
    UpdateRecord(UpdateRecord),
    UpdateManyRecords(UpdateManyRecords),
    ConnectRecords(ConnectRecords),
}

/// The mathematical model of a [`WriteQuery`].
pub enum WriteQueryView {
    UpdateRecord(UpdateRecordView),
    UpdateManyRecords(UpdateManyRecordsView),
    ConnectRecords(ConnectRecordsView),
}

impl View for WriteQuery {
    type V = WriteQueryView;

    open spec fn view(&self) -> WriteQueryView {
        match self {
            WriteQuery::UpdateRecord(q) => WriteQueryView::UpdateRecord(q@),
            WriteQuery::UpdateManyRecords(q) => WriteQueryView::UpdateManyRecords(q@),
            WriteQuery::ConnectRecords(q) => WriteQueryView::ConnectRecords(q@),
        }
    }
}

/// One physical operation for the connector to execute.
#[derive(Debug, PartialEq, Eq)]
pub enum Query {
    Read(ReadQuery),
    Write(WriteQuery),
}

/// The mathematical model of a [`Query`].
pub enum QueryView {
    Read(ReadQueryView),
    Write(WriteQueryView),
}

impl View for Query {
    type V = QueryView;

    open spec fn view(&self) -> QueryView {
        match self {
            Query::Read(q) => QueryView::Read(q@),
            Query::Write(q) => QueryView::Write(q@),
        }
    }
}

} // verus!
