//! Predicates over records, as they arrive already parsed, and the filter of a write.

use crate::value::{FieldValue, FieldValueView, PrismaValue, PrismaValueView, SelectionResult};
use vstd::prelude::*;

verus! {

/// A condition on one scalar field.
#[derive(Debug, PartialEq, Eq)]
pub enum ScalarCondition {
    Equals(PrismaValue),
    NotEquals(PrismaValue),
    In(Vec<PrismaValue>),
}

/// The mathematical model of a [`ScalarCondition`].
pub enum ScalarConditionView {
    Equals(PrismaValueView),
    NotEquals(PrismaValueView),
    In(Seq<PrismaValueView>),
}

impl View for ScalarCondition {
    type V = ScalarConditionView;

    open spec fn view(&self) -> ScalarConditionView {
        match self {
            ScalarCondition::Equals(v) => ScalarConditionView::Equals(v@),
            ScalarCondition::NotEquals(v) => ScalarConditionView::NotEquals(v@),
            ScalarCondition::In(vs) => ScalarConditionView::In(vs.deep_view()),
        }
    }
}

impl Clone for ScalarCondition {
    fn clone(&self) -> (r: Self)
        ensures
            r@ == self@,
    {
        match self {
            ScalarCondition::Equals(v) => ScalarCondition::Equals(v.clone()),
            ScalarCondition::NotEquals(v) => ScalarCondition::NotEquals(v.clone()),
            ScalarCondition::In(vs) => {
                let copy = vs.clone();
                assert(copy.deep_view() =~= vs.deep_view());
                ScalarCondition::In(copy)
            },
        }
    }
}

/// A condition on a named scalar field.
#[derive(Debug, PartialEq, Eq)]
pub struct ScalarFilter {
    pub field: String,
    pub condition: ScalarCondition,
}

/// The mathematical model of a [`ScalarFilter`].
pub struct ScalarFilterView {
    pub field: Seq<char>,
    pub condition: ScalarConditionView,
}

impl View for ScalarFilter {
    type V = ScalarFilterView;

    open spec fn view(&self) -> ScalarFilterView {
        ScalarFilterView { field: self.field@, condition: self.condition@ }
    }
}

impl Clone for ScalarFilter {
    fn clone(&self) -> (r: Self)
        ensures
            r@ == self@,
    {
        ScalarFilter { field: self.field.clone(), condition: self.condition.clone() }
    }
}

/// A predicate tree over the records of one model.
#[derive(Debug, PartialEq, Eq)]
pub enum Filter {
    And(Vec<Filter>),
    Or(Vec<Filter>),
    Not(Vec<Filter>),
    Scalar(ScalarFilter),
}

/// The mathematical model of a [`Filter`].
pub enum FilterView {
    And(Seq<FilterView>),
    Or(Seq<FilterView>),
    Not(Seq<FilterView>),
    Scalar(ScalarFilterView),
}

/// The models of a list of filters, one for one.
pub open spec fn filter_views(filters: Seq<Filter>) -> Seq<FilterView>
    decreases filters,
{
    Seq::new(
        filters.len(),
        |i: int|
            if 0 <= i < filters.len() {
                filters[i].view()
            } else {
                FilterView::And(Seq::empty())
            },
    )
}

impl View for Filter {
    type V = FilterView;

    open spec fn view(&self) -> FilterView
        decreases self,
    {
        match self {
            Filter::And(fs) => FilterView::And(filter_views(fs@)),
            Filter::Or(fs) => FilterView::Or(filter_views(fs@)),
            Filter::Not(fs) => FilterView::Not(filter_views(fs@)),
            Filter::Scalar(sf) => FilterView::Scalar(sf@),
        }
    }
}

impl DeepView for Filter {
    type V = FilterView;

    open spec fn deep_view(&self) -> FilterView {
        self@
    }
}

/// The model of a list of filters is the list of their models.
pub proof fn lemma_filter_views(filters: Vec<Filter>)
    ensures
        filter_views(filters@) == filters.deep_view(),
{
    assert(filter_views(filters@) =~= filters.deep_view());
}

/// Copies a list of filters.
pub fn clone_filters(filters: &Vec<Filter>) -> (r: Vec<Filter>)
    ensures
        r.deep_view() == filters.deep_view(),
    decreases filters,
{
    let mut out: Vec<Filter> = Vec::new();
    let mut i: usize = 0;
    while i < filters.len()
        invariant
            i <= filters.len(),
            out.len() == i,
            forall|j: int| 0 <= j < i ==> out[j]@ == filters[j]@,
        decreases filters.len() - i,
    {
        out.push(filters[i].clone());
        i += 1;
    }
    assert(out.deep_view() =~= filters.deep_view());
    out
}

impl Clone for Filter {
    fn clone(&self) -> (r: Self)
        ensures
            r@ == self@,
        decreases self,
    {
        match self {
            Filter::And(fs) => {
                let copy = clone_filters(fs);
                proof {
                    lemma_filter_views(copy);
                    lemma_filter_views(*fs);
                }
                Filter::And(copy)
            },
            Filter::Or(fs) => {
                let copy = clone_filters(fs);
                proof {
                    lemma_filter_views(copy);
                    lemma_filter_views(*fs);
                }
                Filter::Or(copy)
            },
            Filter::Not(fs) => {
                let copy = clone_filters(fs);
                proof {
                    lemma_filter_views(copy);
                    lemma_filter_views(*fs);
                }
                Filter::Not(copy)
            },
            Filter::Scalar(sf) => Filter::Scalar(sf.clone()),
        }
    }
}

/// The filter that holds of every record.
pub open spec fn empty_filter() -> FilterView {
    FilterView::And(Seq::empty())
}

/// The filter that holds of the records which agree with `row` on each of its fields.
pub open spec fn selection_filter(row: Seq<FieldValueView>) -> FilterView {
    FilterView::And(
        Seq::new(
            row.len(),
            |i: int|
                FilterView::Scalar(
                    ScalarFilterView {
                        field: row[i].field,
                        condition: ScalarConditionView::Equals(row[i].value),
                    },
                ),
        ),
    )
}

impl Filter {
    /// The filter that holds of every record.
    pub fn empty() -> (r: Filter)
        ensures
            r@ == empty_filter(),
    {
        let r = Filter::And(Vec::new());
        assert(filter_views(Seq::<Filter>::empty()) =~= Seq::<FilterView>::empty());
        r
    }

    /// The filter that holds of a record if one of `filters` does.
    pub fn or(filters: Vec<Filter>) -> (r: Filter)
        ensures
            r@ == FilterView::Or(filters.deep_view()),
    {
        proof {
            lemma_filter_views(filters);
        }
        Filter::Or(filters)
    }

    /// The filter that holds of the records which agree with `row` on each of its fields.
    pub fn from_selection(row: &SelectionResult) -> (r: Filter)
        ensures
            r@ == selection_filter(row@),
    {
        let mut conditions: Vec<Filter> = Vec::new();
        let mut i: usize = 0;
        while i < row.pairs.len()
            invariant
                i <= row.pairs.len(),
                conditions.len() == i,
                forall|j: int|
                    0 <= j < i ==> conditions[j]@ == FilterView::Scalar(
                        ScalarFilterView {
                            field: row@[j].field,
                            condition: ScalarConditionView::Equals(row@[j].value),
                        },
                    ),
            decreases row.pairs.len() - i,
        {
            let pair: &FieldValue = &row.pairs[i];
            conditions.push(
                Filter::Scalar(
                    ScalarFilter {
                        field: pair.field.clone(),
                        condition: ScalarCondition::Equals(pair.value.clone()),
                    },
                ),
            );
            i += 1;
        }
        proof {
            lemma_filter_views(conditions);
            assert(conditions.deep_view() =~= selection_filter(row@)->And_0);
        }
        Filter::And(conditions)
    }
}

/// Which records a write applies to: those that pass a filter and, where a list of identifying
/// rows is given, are among them.
#[derive(Debug, PartialEq, Eq)]
pub struct RecordFilter {
    pub filter: Filter,
    pub selectors: Option<Vec<SelectionResult>>,
}

/// The mathematical model of a [`RecordFilter`].
pub struct RecordFilterView {
    pub filter: FilterView,
    pub selectors: Option<Seq<Seq<FieldValueView>>>,
}

impl View for RecordFilter {
    type V = RecordFilterView;

    open spec fn view(&self) -> RecordFilterView {
        RecordFilterView { filter: self.filter@, selectors: self.selectors.deep_view() }
    }
}

impl RecordFilter {
    /// The records that pass `filter`.
    pub fn from_filter(filter: Filter) -> (r: RecordFilter)
        ensures
            r@ == (RecordFilterView { filter: filter@, selectors: None }),
    {
        RecordFilter { filter, selectors: None }
    }

    /// Exactly the records that `selectors` identify.
    pub fn from_selectors(selectors: Vec<SelectionResult>) -> (r: RecordFilter)
        ensures
            r@ == (RecordFilterView {
                filter: empty_filter(),
                selectors: Some(selectors.deep_view()),
            }),
    {
        RecordFilter { filter: Filter::empty(), selectors: Some(selectors) }
    }
}

} // verus!
