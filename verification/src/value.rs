//! Scalar values and identifying rows that flow between the operations of a query graph.

use crate::datetime::DateTime;
use crate::decimal::decimal_clone;
use bigdecimal::BigDecimal;
use vstd::prelude::*;

verus! {

/// A scalar value read from or written to a record.
#[derive(Debug, PartialEq, Eq)]
pub enum PrismaValue {
    String(String),
    Boolean(bool),
    Enum(String),
    Int(i64),
    BigInt(i64),
    Float(BigDecimal),
    DateTime(DateTime),
    Json(String),
    Bytes(Vec<u8>),
    Null,
}

/// The mathematical model of a [`PrismaValue`].
pub enum PrismaValueView {
    String(Seq<char>),
    Boolean(bool),
    Enum(Seq<char>),
    Int(int),
    BigInt(int),
    Float(BigDecimal),
    DateTime(DateTime),
    Json(Seq<char>),
    Bytes(Seq<u8>),
    Null,
}

impl View for PrismaValue {
    type V = PrismaValueView;

    open spec fn view(&self) -> PrismaValueView {
        match self {
            PrismaValue::String(s) => PrismaValueView::String(s@),
            PrismaValue::Boolean(b) => PrismaValueView::Boolean(*b),
            PrismaValue::Enum(s) => PrismaValueView::Enum(s@),
            PrismaValue::Int(i) => PrismaValueView::Int(*i as int),
            PrismaValue::BigInt(i) => PrismaValueView::BigInt(*i as int),
            PrismaValue::Float(d) => PrismaValueView::Float(*d),
            PrismaValue::DateTime(t) => PrismaValueView::DateTime(*t),
            PrismaValue::Json(s) => PrismaValueView::Json(s@),
            PrismaValue::Bytes(b) => PrismaValueView::Bytes(b@),
            PrismaValue::Null => PrismaValueView::Null,
        }
    }
}

impl DeepView for PrismaValue {
    type V = PrismaValueView;

    open spec fn deep_view(&self) -> PrismaValueView {
        self@
    }
}

impl Clone for PrismaValue {
    fn clone(&self) -> (r: Self)
        ensures
            r@ == self@,
    {
        match self {
            PrismaValue::String(s) => PrismaValue::String(s.clone()),
            PrismaValue::Boolean(b) => PrismaValue::Boolean(*b),
            PrismaValue::Enum(s) => PrismaValue::Enum(s.clone()),
            PrismaValue::Int(i) => PrismaValue::Int(*i),
            PrismaValue::BigInt(i) => PrismaValue::BigInt(*i),
            PrismaValue::Float(d) => PrismaValue::Float(decimal_clone(d)),
            PrismaValue::DateTime(t) => PrismaValue::DateTime(*t),
            PrismaValue::Json(s) => PrismaValue::Json(s.clone()),
            PrismaValue::Bytes(b) => {
                let copy = b.clone();
                assert(copy@ =~= b@);
                PrismaValue::Bytes(copy)
            },
            PrismaValue::Null => PrismaValue::Null,
        }
    }
}

/// One field of a row: the field's database name and its value.
#[derive(Debug, PartialEq, Eq)]
pub struct FieldValue {
    pub field: String,
    pub value: PrismaValue,
}

/// The mathematical model of a [`FieldValue`].
pub struct FieldValueView {
    pub field: Seq<char>,
    pub value: PrismaValueView,
}

impl View for FieldValue {
    type V = FieldValueView;

    open spec fn view(&self) -> FieldValueView {
        FieldValueView { field: self.field@, value: self.value@ }
    }
}

impl DeepView for FieldValue {
    type V = FieldValueView;

    open spec fn deep_view(&self) -> FieldValueView {
        self@
    }
}

impl Clone for FieldValue {
    fn clone(&self) -> (r: Self)
        ensures
            r@ == self@,
    {
        FieldValue { field: self.field.clone(), value: self.value.clone() }
    }
}

/// A row of selected fields, in the order in which they were read.
#[derive(Debug, PartialEq, Eq)]
pub struct SelectionResult {
    pub pairs: Vec<FieldValue>,
}

impl View for SelectionResult {
    type V = Seq<FieldValueView>;

    open spec fn view(&self) -> Seq<FieldValueView> {
        self.pairs.deep_view()
    }
}

impl DeepView for SelectionResult {
    type V = Seq<FieldValueView>;

    open spec fn deep_view(&self) -> Seq<FieldValueView> {
        self@
    }
}

impl Clone for SelectionResult {
    fn clone(&self) -> (r: Self)
        ensures
            r@ == self@,
    {
        let pairs = self.pairs.clone();
        assert(pairs.deep_view() =~= self.pairs.deep_view());
        SelectionResult { pairs }
    }
}

} // verus!
