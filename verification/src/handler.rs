//! Matching the queries of a compacted batch to the records of the one read that answers them.
//!
//! Many reads of one record each can be run as one read of many records. Each record then has
//! to find its way back to the query that asked for it, by the arguments of the query. The
//! arguments come from the client and the records from the connector, so that one value may
//! arrive in two forms; the comparison here knows which forms stand for the same value.

use crate::datetime::{datetime_text, parsed_datetime, read_datetime, write_datetime, DateTime};
use crate::decimal::{
    comparable, decimal_from_int, decimals_agree, int_as_decimal, is_readable_decimal,
    read_decimal, readable_decimal, same_number, text_as_decimal,
};
use crate::response_ir::{
    item_named, row_entries, row_get, select_fields, selected_entries, Item, ItemView,
};
use crate::schema::FieldSelection;
use crate::value::{PrismaValue, PrismaValueView};
use bigdecimal::BigDecimal;
use indexmap::IndexMap;
use vstd::prelude::*;
use vstd::string::*;

verus! {

/// The value of an argument: a scalar, an object of named values, or a list.
#[derive(Debug, PartialEq, Eq)]
pub enum ArgumentValue {
    Scalar(PrismaValue),
    Object(Vec<ArgumentEntry>),
    List(Vec<ArgumentValue>),
}

/// A named value of an object, or a named argument of a query.
#[derive(Debug, PartialEq, Eq)]
pub struct ArgumentEntry {
    pub key: String,
    pub value: ArgumentValue,
}

/// The mathematical model of an [`ArgumentValue`].
pub enum ArgumentValueView {
    Scalar(PrismaValueView),
    Object(Seq<ArgumentEntryView>),
    List(Seq<ArgumentValueView>),
}

/// The mathematical model of an [`ArgumentEntry`].
pub struct ArgumentEntryView {
    pub key: Seq<char>,
    pub value: ArgumentValueView,
}

/// The models of a list of values, one for one.
pub open spec fn argument_views(values: Seq<ArgumentValue>) -> Seq<ArgumentValueView>
    decreases values,
{
    Seq::new(
        values.len(),
        |i: int|
            if 0 <= i < values.len() {
                values[i].view()
            } else {
                ArgumentValueView::List(Seq::empty())
            },
    )
}

/// The models of a list of entries, one for one.
pub open spec fn entry_views(entries: Seq<ArgumentEntry>) -> Seq<ArgumentEntryView>
    decreases entries,
{
    Seq::new(
        entries.len(),
        |i: int|
            if 0 <= i < entries.len() {
                entries[i].view()
            } else {
                ArgumentEntryView { key: Seq::empty(), value: ArgumentValueView::List(Seq::empty()) }
            },
    )
}

impl View for ArgumentValue {
    type V = ArgumentValueView;

    open spec fn view(&self) -> ArgumentValueView
        decreases self,
    {
        match self {
            ArgumentValue::Scalar(value) => ArgumentValueView::Scalar(value@),
            ArgumentValue::Object(entries) => ArgumentValueView::Object(entry_views(entries@)),
            ArgumentValue::List(values) => ArgumentValueView::List(argument_views(values@)),
        }
    }
}

impl View for ArgumentEntry {
    type V = ArgumentEntryView;

    open spec fn view(&self) -> ArgumentEntryView
        decreases self,
    {
        ArgumentEntryView { key: self.key@, value: self.value@ }
    }
}

impl DeepView for ArgumentValue {
    type V = ArgumentValueView;

    open spec fn deep_view(&self) -> ArgumentValueView {
        self@
    }
}

impl DeepView for ArgumentEntry {
    type V = ArgumentEntryView;

    open spec fn deep_view(&self) -> ArgumentEntryView {
        self@
    }
}

/// The model of a list of values is the list of their models.
pub proof fn lemma_argument_views(values: Vec<ArgumentValue>)
    ensures
        argument_views(values@) == values.deep_view(),
{
    assert(argument_views(values@) =~= values.deep_view());
}

/// The model of a list of entries is the list of their models.
pub proof fn lemma_entry_views(entries: Vec<ArgumentEntry>)
    ensures
        entry_views(entries@) == entries.deep_view(),
{
    assert(entry_views(entries@) =~= entries.deep_view());
}

/// The position of the first entry with that key, or the number of entries if none has it.
pub open spec fn entry_position(entries: Seq<ArgumentEntryView>, key: Seq<char>) -> int
    decreases entries.len(),
{
    if entries.len() == 0 {
        0
    } else if entries[0].key == key {
        0
    } else {
        1 + entry_position(entries.drop_first(), key)
    }
}

/// The value of the first entry with that key.
pub open spec fn entry_value(entries: Seq<ArgumentEntryView>, key: Seq<char>) -> Option<
    ArgumentValueView,
> {
    if entry_position(entries, key) < entries.len() {
        Some(entries[entry_position(entries, key)].value)
    } else {
        None
    }
}

/// Finds the first entry with that key.
pub fn find_entry<'a>(entries: &'a Vec<ArgumentEntry>, key: &str) -> (r: Option<&'a ArgumentValue>)
    ensures
        r.is_some() == (entry_position(entries.deep_view(), key@) < entries.len()),
        r.is_some() ==> r.unwrap()@ == entries.deep_view()[entry_position(
            entries.deep_view(),
            key@,
        )].value && r.unwrap() == &entries[entry_position(entries.deep_view(), key@)].value,
        r.deep_view() == entry_value(entries.deep_view(), key@),
{
    let wanted = String::from_str(key);
    let ghost all = entries.deep_view();
    let mut i: usize = 0;
    assert(all.skip(0) =~= all);
    while i < entries.len()
        invariant
            i <= entries.len(),
            all == entries.deep_view(),
            wanted@ == key@,
            entry_position(all, key@) == i + entry_position(all.skip(i as int), key@),
        decreases entries.len() - i,
    {
        let ghost rest = all.skip(i as int);
        assert(rest[0] == all[i as int]);
        assert(rest.drop_first() =~= all.skip(i + 1));
        if entries[i].key == wanted {
            return Some(&entries[i].value);
        }
        i += 1;
    }
    None
}

/// Whether two scalars are equal as values of one kind, if that can be told without risk.
///
/// Scalars of different kinds are not equal. Dates are equal if they are the same point in
/// time. Numbers are equal if `bigdecimal` holds them to be; whether it does cannot be told of
/// two numbers whose scales lie too far apart.
pub open spec fn scalars_equal(a: PrismaValueView, b: PrismaValueView) -> Option<bool> {
    match (a, b) {
        (PrismaValueView::String(x), PrismaValueView::String(y)) => Some(x == y),
        (PrismaValueView::Boolean(x), PrismaValueView::Boolean(y)) => Some(x == y),
        (PrismaValueView::Enum(x), PrismaValueView::Enum(y)) => Some(x == y),
        (PrismaValueView::Int(x), PrismaValueView::Int(y)) => Some(x == y),
        (PrismaValueView::BigInt(x), PrismaValueView::BigInt(y)) => Some(x == y),
        (PrismaValueView::Float(x), PrismaValueView::Float(y)) => if comparable(x, y) {
            Some(same_number(x, y))
        } else {
            None
        },
        (PrismaValueView::DateTime(x), PrismaValueView::DateTime(y)) => Some(x.same_instant(y)),
        (PrismaValueView::Json(x), PrismaValueView::Json(y)) => Some(x == y),
        (PrismaValueView::Bytes(x), PrismaValueView::Bytes(y)) => Some(x == y),
        (PrismaValueView::Null, PrismaValueView::Null) => Some(true),
        _ => Some(false),
    }
}

/// Whether a text and a date stand for the same point in time: the text reads as that point,
/// or it does not read as a date and is the text of the date.
pub open spec fn text_is_date(text: Seq<char>, date: DateTime) -> bool {
    match parsed_datetime(text) {
        Some(parsed) => parsed.same_instant(date),
        None => date.writable() && text == datetime_text(date),
    }
}

/// Whether an integer and a number are the same number, if that can be told without risk.
pub open spec fn int_is_number(integer: int, number: BigDecimal) -> Option<bool> {
    if comparable(int_as_decimal(integer), number) {
        Some(same_number(int_as_decimal(integer), number))
    } else {
        None
    }
}

/// Whether a text reads as the given number, if that can be told without risk: a text that is
/// no number reads as none.
pub open spec fn text_is_number(text: Seq<char>, number: BigDecimal) -> Option<bool> {
    if !readable_decimal(text) {
        None
    } else {
        match text_as_decimal(text) {
            None => Some(false),
            Some(parsed) => if comparable(parsed, number) {
                Some(same_number(parsed, number))
            } else {
                None
            },
        }
    }
}

/// Whether two scalars stand for the same value, one as the client gave it and one as the
/// connector returned it, if that can be told without risk.
///
/// A text agrees with the date it reads as; an integer, of either width, with the number and
/// with the integer of the other width that it equals, and with the text that reads as it; a
/// number with the text that reads as it; the name of an enum value with the same text. All
/// other scalars agree if they are equal.
pub open spec fn scalars_agree(a: PrismaValueView, b: PrismaValueView) -> Option<bool> {
    match (a, b) {
        (PrismaValueView::String(text), PrismaValueView::DateTime(date)) => Some(
            text_is_date(text, date),
        ),
        (PrismaValueView::DateTime(date), PrismaValueView::String(text)) => Some(
            text_is_date(text, date),
        ),
        (PrismaValueView::Int(i), PrismaValueView::Float(number)) => int_is_number(i, number),
        (PrismaValueView::BigInt(i), PrismaValueView::Float(number)) => int_is_number(i, number),
        (PrismaValueView::Float(number), PrismaValueView::Int(i)) => int_is_number(i, number),
        (PrismaValueView::Float(number), PrismaValueView::BigInt(i)) => int_is_number(i, number),
        (PrismaValueView::Int(i), PrismaValueView::BigInt(j)) => Some(i == j),
        (PrismaValueView::BigInt(i), PrismaValueView::Int(j)) => Some(i == j),
        (PrismaValueView::Enum(x), PrismaValueView::String(y)) => Some(x == y),
        (PrismaValueView::String(x), PrismaValueView::Enum(y)) => Some(x == y),
        (PrismaValueView::Int(i), PrismaValueView::String(text)) => text_is_number(
            text,
            int_as_decimal(i),
        ),
        (PrismaValueView::BigInt(i), PrismaValueView::String(text)) => text_is_number(
            text,
            int_as_decimal(i),
        ),
        (PrismaValueView::String(text), PrismaValueView::Int(i)) => text_is_number(
            text,
            int_as_decimal(i),
        ),
        (PrismaValueView::String(text), PrismaValueView::BigInt(i)) => text_is_number(
            text,
            int_as_decimal(i),
        ),
        (PrismaValueView::Float(number), PrismaValueView::String(text)) => text_is_number(
            text,
            number,
        ),
        (PrismaValueView::String(text), PrismaValueView::Float(number)) => text_is_number(
            text,
            number,
        ),
        _ => scalars_equal(a, b),
    }
}

/// Whether two lists of bytes are the same.
fn bytes_equal(a: &Vec<u8>, b: &Vec<u8>) -> (r: bool)
    ensures
        r == (a@ == b@),
{
    if a.len() != b.len() {
        return false;
    }
    let mut i: usize = 0;
    while i < a.len()
        invariant
            i <= a.len(),
            a.len() == b.len(),
            forall|j: int| 0 <= j < i ==> a[j] == b[j],
        decreases a.len() - i,
    {
        if a[i] != b[i] {
            return false;
        }
        i += 1;
    }
    assert(a@ =~= b@);
    true
}

/// Whether two scalars are equal as values of one kind, if that can be told without risk.
pub fn prisma_values_equal(a: &PrismaValue, b: &PrismaValue) -> (r: Option<bool>)
    ensures
        r == scalars_equal(a@, b@),
{
    match (a, b) {
        (PrismaValue::String(x), PrismaValue::String(y)) => Some(*x == *y),
        (PrismaValue::Boolean(x), PrismaValue::Boolean(y)) => Some(*x == *y),
        (PrismaValue::Enum(x), PrismaValue::Enum(y)) => Some(*x == *y),
        (PrismaValue::Int(x), PrismaValue::Int(y)) => Some(*x == *y),
        (PrismaValue::BigInt(x), PrismaValue::BigInt(y)) => Some(*x == *y),
        (PrismaValue::Float(x), PrismaValue::Float(y)) => decimals_agree(x, y),
        (PrismaValue::DateTime(x), PrismaValue::DateTime(y)) => Some(x.is_same_instant(y)),
        (PrismaValue::Json(x), PrismaValue::Json(y)) => Some(*x == *y),
        (PrismaValue::Bytes(x), PrismaValue::Bytes(y)) => Some(bytes_equal(x, y)),
        (PrismaValue::Null, PrismaValue::Null) => Some(true),
        _ => Some(false),
    }
}

fn compare_text_and_date(text: &String, date: &DateTime) -> (r: bool)
    ensures
        r == text_is_date(text@, *date),
{
    match read_datetime(text.as_str()) {
        Some(parsed) => parsed.is_same_instant(date),
        None => match write_datetime(date) {
            Some(written) => *text == written,
            None => false,
        },
    }
}

fn compare_int_and_number(integer: i64, number: &BigDecimal) -> (r: Option<bool>)
    ensures
        r == int_is_number(integer as int, *number),
{
    let as_number = decimal_from_int(integer);
    decimals_agree(&as_number, number)
}

fn compare_text_and_number(text: &String, number: &BigDecimal) -> (r: Option<bool>)
    ensures
        r == text_is_number(text@, *number),
{
    if !is_readable_decimal(text.as_str()) {
        return None;
    }
    match read_decimal(text.as_str()) {
        Some(parsed) => decimals_agree(&parsed, number),
        None => Some(false),
    }
}

/// Whether two scalars stand for the same value, if that can be told without risk.
pub fn compare_scalars(a: &PrismaValue, b: &PrismaValue) -> (r: Option<bool>)
    ensures
        r == scalars_agree(a@, b@),
{
    match (a, b) {
        (PrismaValue::String(text), PrismaValue::DateTime(date)) => Some(
            compare_text_and_date(text, date),
        ),
        (PrismaValue::DateTime(date), PrismaValue::String(text)) => Some(
            compare_text_and_date(text, date),
        ),
        (PrismaValue::Int(i), PrismaValue::Float(number)) => compare_int_and_number(*i, number),
        (PrismaValue::BigInt(i), PrismaValue::Float(number)) => compare_int_and_number(*i, number),
        (PrismaValue::Float(number), PrismaValue::Int(i)) => compare_int_and_number(*i, number),
        (PrismaValue::Float(number), PrismaValue::BigInt(i)) => compare_int_and_number(*i, number),
        (PrismaValue::Int(i), PrismaValue::BigInt(j)) => Some(*i == *j),
        (PrismaValue::BigInt(i), PrismaValue::Int(j)) => Some(*i == *j),
        (PrismaValue::Enum(x), PrismaValue::String(y)) => Some(*x == *y),
        (PrismaValue::String(x), PrismaValue::Enum(y)) => Some(*x == *y),
        (PrismaValue::Int(i), PrismaValue::String(text)) => {
            let number = decimal_from_int(*i);
            compare_text_and_number(text, &number)
        },
        (PrismaValue::BigInt(i), PrismaValue::String(text)) => {
            let number = decimal_from_int(*i);
            compare_text_and_number(text, &number)
        },
        (PrismaValue::String(text), PrismaValue::Int(i)) => {
            let number = decimal_from_int(*i);
            compare_text_and_number(text, &number)
        },
        (PrismaValue::String(text), PrismaValue::BigInt(i)) => {
            let number = decimal_from_int(*i);
            compare_text_and_number(text, &number)
        },
        (PrismaValue::Float(number), PrismaValue::String(text)) => compare_text_and_number(
            text,
            number,
        ),
        (PrismaValue::String(text), PrismaValue::Float(number)) => compare_text_and_number(
            text,
            number,
        ),
        _ => prisma_values_equal(a, b),
    }
}

/// Whether two values are equal, if that can be told without risk.
///
/// Scalars are equal as [`scalars_equal`] says. Lists are equal if they are equally long and
/// equal place by place. Objects are equal if they have equally many entries and each entry
/// of the first has, under its key, an equal value in the second. Values of different shape
/// are not equal. The comparison goes from the front and ends with the first pair that is not
/// equal or of which it cannot be told.
pub open spec fn values_equal(left: ArgumentValueView, right: ArgumentValueView) -> Option<bool>
    decreases left, 0nat,
{
    match (left, right) {
        (ArgumentValueView::Scalar(a), ArgumentValueView::Scalar(b)) => scalars_equal(a, b),
        (ArgumentValueView::Object(a), ArgumentValueView::Object(b)) => if a.len() != b.len() {
            Some(false)
        } else {
            entries_equal_from(a, b, 0)
        },
        (ArgumentValueView::List(a), ArgumentValueView::List(b)) => if a.len() != b.len() {
            Some(false)
        } else {
            items_equal_from(a, b, 0)
        },
        _ => Some(false),
    }
}

/// Whether each entry of `a` from place `from` on has an equal value under its key in `b`.
pub open spec fn entries_equal_from(
    a: Seq<ArgumentEntryView>,
    b: Seq<ArgumentEntryView>,
    from: int,
) -> Option<bool>
    decreases a, a.len() - from,
{
    if from < 0 || from >= a.len() {
        Some(true)
    } else {
        match entry_value(b, a[from].key) {
            None => Some(false),
            Some(other) => match values_equal(a[from].value, other) {
                Some(true) => entries_equal_from(a, b, from + 1),
                result => result,
            },
        }
    }
}

/// Whether `a` and `b` are equal place by place from place `from` on.
pub open spec fn items_equal_from(
    a: Seq<ArgumentValueView>,
    b: Seq<ArgumentValueView>,
    from: int,
) -> Option<bool>
    decreases a, a.len() - from,
{
    if from < 0 || from >= a.len() {
        Some(true)
    } else {
        match values_equal(a[from], b[from]) {
            Some(true) => items_equal_from(a, b, from + 1),
            result => result,
        }
    }
}

/// Whether two values are equal, if that can be told without risk.
pub fn argument_values_equal(left: &ArgumentValue, right: &ArgumentValue) -> (r: Option<bool>)
    ensures
        r == values_equal(left@, right@),
    decreases left,
{
    match (left, right) {
        (ArgumentValue::Scalar(a), ArgumentValue::Scalar(b)) => prisma_values_equal(a, b),
        (ArgumentValue::Object(a), ArgumentValue::Object(b)) => {
            proof {
                lemma_entry_views(*a);
                lemma_entry_views(*b);
            }
            if a.len() != b.len() {
                return Some(false);
            }
            let mut i: usize = 0;
            while i < a.len()
                invariant
                    i <= a.len(),
                    a.len() == b.len(),
                    *left == ArgumentValue::Object(*a),
                    left@ == ArgumentValueView::Object(a.deep_view()),
                    right@ == ArgumentValueView::Object(b.deep_view()),
                    entries_equal_from(a.deep_view(), b.deep_view(), 0) == entries_equal_from(
                        a.deep_view(),
                        b.deep_view(),
                        i as int,
                    ),
                decreases a.len() - i,
            {
                let entry: &ArgumentEntry = &a[i];
                assert(entry@ == a.deep_view()[i as int]);
                match find_entry(b, entry.key.as_str()) {
                    None => {
                        return Some(false);
                    },
                    Some(other) => match argument_values_equal(&entry.value, other) {
                        Some(true) => {},
                        result => {
                            return result;
                        },
                    },
                }
                i += 1;
            }
            Some(true)
        },
        (ArgumentValue::List(a), ArgumentValue::List(b)) => {
            proof {
                lemma_argument_views(*a);
                lemma_argument_views(*b);
            }
            if a.len() != b.len() {
                return Some(false);
            }
            let mut i: usize = 0;
            while i < a.len()
                invariant
                    i <= a.len(),
                    a.len() == b.len(),
                    *left == ArgumentValue::List(*a),
                    left@ == ArgumentValueView::List(a.deep_view()),
                    right@ == ArgumentValueView::List(b.deep_view()),
                    items_equal_from(a.deep_view(), b.deep_view(), 0) == items_equal_from(
                        a.deep_view(),
                        b.deep_view(),
                        i as int,
                    ),
                decreases a.len() - i,
            {
                match argument_values_equal(&a[i], &b[i]) {
                    Some(true) => {},
                    result => {
                        return result;
                    },
                }
                i += 1;
            }
            Some(true)
        },
        _ => Some(false),
    }
}

/// Whether an entry with that key is among the entries.
pub open spec fn has_entry(entries: Seq<ArgumentEntryView>, key: Seq<char>) -> bool {
    entry_position(entries, key) < entries.len()
}

/// The value that an object wraps: an object of exactly two entries, one under `$type` and one
/// under `value`, wraps the latter.
pub open spec fn unwrapped(entries: Seq<ArgumentEntryView>) -> Option<ArgumentValueView> {
    if entries.len() == 2 && has_entry(entries, "$type"@) && has_entry(entries, "value"@) {
        if entries[0].key == "value"@ {
            Some(entries[0].value)
        } else {
            Some(entries[1].value)
        }
    } else {
        None
    }
}

/// How many objects that wrap a value stand one in another, from the value inwards.
pub open spec fn nesting(value: ArgumentValueView) -> nat
    decreases value,
{
    match value {
        ArgumentValueView::Object(entries) => match unwrapped(entries) {
            Some(inner) => 1 + nesting(inner),
            None => 0,
        },
        _ => 0,
    }
}

/// Whether two values stand for the same value, one as the client gave it and one as the
/// connector returned it, if that can be told without risk.
///
/// Scalars agree as [`scalars_agree`] says. Where one of the two is an object that wraps a
/// value, the left before the right, the wrapped value is compared with the other in its
/// place. All other values agree if they are equal.
pub open spec fn values_agree(left: ArgumentValueView, right: ArgumentValueView) -> Option<bool>
    decreases nesting(left) + nesting(right),
{
    match (left, right) {
        (ArgumentValueView::Scalar(a), ArgumentValueView::Scalar(b)) => scalars_agree(a, b),
        (ArgumentValueView::Object(entries), _) => match unwrapped(entries) {
            Some(inner) => values_agree(inner, right),
            None => values_equal(left, right),
        },
        (_, ArgumentValueView::Object(entries)) => match unwrapped(entries) {
            Some(inner) => values_agree(inner, left),
            None => values_equal(left, right),
        },
        _ => values_equal(left, right),
    }
}

/// The value that an object wraps, if it wraps one.
pub fn unwrap_value(obj: &Vec<ArgumentEntry>) -> (r: Option<&ArgumentValue>)
    ensures
        r.deep_view() == unwrapped(obj.deep_view()),
        r is Some ==> (*r.unwrap() == obj[0].value || *r.unwrap() == obj[1].value) && obj.len()
            == 2,
{
    if obj.len() != 2 {
        return None;
    }
    if find_entry(obj, "$type").is_none() || find_entry(obj, "value").is_none() {
        return None;
    }
    let ghost entries = obj.deep_view();
    proof {
        reveal_with_fuel(entry_position, 3);
        assert(entries.drop_first().drop_first().len() == 0);
    }
    find_entry(obj, "value")
}

/// Whether two values stand for the same value, if that can be told without risk.
pub fn compare_values(left: &ArgumentValue, right: &ArgumentValue) -> (r: Option<bool>)
    ensures
        r == values_agree(left@, right@),
    decreases nesting(left@) + nesting(right@),
{
    match (left, right) {
        (ArgumentValue::Scalar(a), ArgumentValue::Scalar(b)) => compare_scalars(a, b),
        (ArgumentValue::Object(entries), _) => {
            proof {
                lemma_entry_views(*entries);
            }
            match unwrap_value(entries) {
                Some(inner) => compare_values(inner, right),
                None => argument_values_equal(left, right),
            }
        },
        (_, ArgumentValue::Object(entries)) => {
            proof {
                lemma_entry_views(*entries);
            }
            match unwrap_value(entries) {
                Some(inner) => compare_values(inner, left),
                None => argument_values_equal(left, right),
            }
        },
        _ => argument_values_equal(left, right),
    }
}

/// Whether each argument of `small` agrees with the argument of its name in `large`. An
/// argument of which it cannot be told whether it agrees does not.
pub open spec fn all_agree(small: Seq<ArgumentEntryView>, large: Seq<ArgumentEntryView>) -> bool {
    forall|i: int|
        0 <= i < small.len() ==> match entry_value(large, (#[trigger] small[i]).key) {
            Some(large_value) => values_agree(small[i].value, large_value) == Some(true),
            None => false,
        }
}

/// Whether each argument of the shorter list agrees with the argument of its name in the
/// longer list; of two lists of one length the left is taken for the shorter.
pub open spec fn arguments_agree(left: Seq<ArgumentEntryView>, right: Seq<ArgumentEntryView>) -> bool {
    if left.len() > right.len() {
        all_agree(right, left)
    } else {
        all_agree(left, right)
    }
}

/// Whether the arguments of a query and the arguments read off a record agree.
pub fn compare_args(left: &Vec<ArgumentEntry>, right: &Vec<ArgumentEntry>) -> (r: bool)
    ensures
        r == arguments_agree(left.deep_view(), right.deep_view()),
{
    let (large, small) = if left.len() > right.len() {
        (left, right)
    } else {
        (right, left)
    };
    let mut i: usize = 0;
    while i < small.len()
        invariant
            i <= small.len(),
            left.len() > right.len() ==> large == left && small == right,
            left.len() <= right.len() ==> large == right && small == left,
            forall|j: int|
                0 <= j < i ==> match entry_value(
                    large.deep_view(),
                    (#[trigger] small.deep_view()[j]).key,
                ) {
                    Some(large_value) => values_agree(small.deep_view()[j].value, large_value)
                        == Some(true),
                    None => false,
                },
        decreases small.len() - i,
    {
        let entry: &ArgumentEntry = &small[i];
        assert(entry@ == small.deep_view()[i as int]);
        let agrees = match find_entry(large, entry.key.as_str()) {
            Some(large_value) => match compare_values(&entry.value, large_value) {
                Some(true) => true,
                _ => false,
            },
            None => false,
        };
        if !agrees {
            proof {
                let small_view = small.deep_view();
                let large_view = large.deep_view();
                assert(!(match entry_value(large_view, small_view[i as int].key) {
                    Some(large_value) => values_agree(small_view[i as int].value, large_value)
                        == Some(true),
                    None => false,
                }));
                assert(!all_agree(small_view, large_view));
            }
            return false;
        }
        i += 1;
    }
    true
}

/// The arguments read off a record, and the place of the record among the records.
#[derive(Debug, PartialEq, Eq)]
pub struct ArgsToResult {
    pub args: Vec<ArgumentEntry>,
    pub result: usize,
}

/// The mathematical model of an [`ArgsToResult`].
pub struct ArgsToResultView {
    pub args: Seq<ArgumentEntryView>,
    pub result: usize,
}

impl View for ArgsToResult {
    type V = ArgsToResultView;

    open spec fn view(&self) -> ArgsToResultView {
        ArgsToResultView { args: self.args.deep_view(), result: self.result }
    }
}

impl DeepView for ArgsToResult {
    type V = ArgsToResultView;

    open spec fn deep_view(&self) -> ArgsToResultView {
        self@
    }
}

/// The place of the first record from `from` on whose arguments agree with those of the
/// query.
pub open spec fn first_agreeing(
    args_to_results: Seq<ArgsToResultView>,
    input_args: Seq<ArgumentEntryView>,
    from: int,
) -> Option<usize>
    decreases args_to_results.len() - from,
{
    if from < 0 || from >= args_to_results.len() {
        None
    } else if arguments_agree(args_to_results[from].args, input_args) {
        Some(args_to_results[from].result)
    } else {
        first_agreeing(args_to_results, input_args, from + 1)
    }
}

/// Finds the record that a query of the batch asked for: the first whose arguments agree with
/// those of the query.
pub fn find_original_result_from_args(
    args_to_results: &Vec<ArgsToResult>,
    input_args: &Vec<ArgumentEntry>,
) -> (r: Option<usize>)
    ensures
        r == first_agreeing(args_to_results.deep_view(), input_args.deep_view(), 0),
{
    let mut i: usize = 0;
    while i < args_to_results.len()
        invariant
            i <= args_to_results.len(),
            first_agreeing(args_to_results.deep_view(), input_args.deep_view(), 0)
                == first_agreeing(args_to_results.deep_view(), input_args.deep_view(), i as int),
        decreases args_to_results.len() - i,
    {
        let candidate: &ArgsToResult = &args_to_results[i];
        assert(candidate@ == args_to_results.deep_view()[i as int]);
        if compare_args(&candidate.args, input_args) {
            return Some(candidate.result);
        }
        i += 1;
    }
    None
}

/// The arguments that a record answers to: for each of `keys`, in order, the scalar that the
/// record holds under it, if it holds one.
pub open spec fn record_arguments(
    entries: Seq<(Seq<char>, ItemView)>,
    keys: Seq<Seq<char>>,
) -> Seq<ArgumentEntryView>
    decreases keys.len(),
{
    if keys.len() == 0 {
        Seq::empty()
    } else {
        let before = record_arguments(entries, keys.drop_last());
        match item_named(entries, keys.last()) {
            Some(ItemView::Value(value)) => before.push(
                ArgumentEntryView { key: keys.last(), value: ArgumentValueView::Scalar(value) },
            ),
            _ => before,
        }
    }
}

/// Reads off each record the arguments that it answers to.
pub fn index_by(rows: &Vec<IndexMap<String, Item>>, keys: &Vec<String>) -> (r: Vec<ArgsToResult>)
    ensures
        r.len() == rows.len(),
        forall|i: int|
            0 <= i < rows.len() ==> (#[trigger] r[i])@ == (ArgsToResultView {
                args: record_arguments(row_entries(rows[i]), keys.deep_view()),
                result: i as usize,
            }),
{
    let mut indexed: Vec<ArgsToResult> = Vec::new();
    let mut i: usize = 0;
    while i < rows.len()
        invariant
            i <= rows.len(),
            indexed.len() == i,
            forall|j: int|
                0 <= j < i ==> (#[trigger] indexed[j])@ == (ArgsToResultView {
                    args: record_arguments(row_entries(rows[j]), keys.deep_view()),
                    result: j as usize,
                }),
        decreases rows.len() - i,
    {
        let row: &IndexMap<String, Item> = &rows[i];
        let mut args: Vec<ArgumentEntry> = Vec::new();
        let ghost all = keys.deep_view();
        let mut k: usize = 0;
        assert(all.take(0) =~= Seq::empty());
        assert(args.deep_view() =~= Seq::empty());
        while k < keys.len()
            invariant
                k <= keys.len(),
                all == keys.deep_view(),
                args.deep_view() == record_arguments(row_entries(*row), all.take(k as int)),
            decreases keys.len() - k,
        {
            assert(all.take(k + 1).drop_last() =~= all.take(k as int));
            match row_get(row, keys[k].as_str()) {
                Some(Item::Value(value)) => {
                    let ghost before = args.deep_view();
                    args.push(
                        ArgumentEntry {
                            key: keys[k].clone(),
                            value: ArgumentValue::Scalar(value.clone()),
                        },
                    );
                    assert(args.deep_view() =~= before.push(
                        ArgumentEntryView {
                            key: all[k as int],
                            value: ArgumentValueView::Scalar(value@),
                        },
                    ));
                },
                _ => {},
            }
            k += 1;
        }
        assert(all.take(k as int) =~= all);
        indexed.push(ArgsToResult { args, result: i });
        i += 1;
    }
    indexed
}

/// What a query of a compacted batch is answered with.
#[derive(Debug, PartialEq, Eq)]
pub enum CompactedResponse {
    /// The record that the query asked for, reduced to the fields it selected.
    Data(IndexMap<String, Item>),
    /// The error for a query that demands a record where there is none.
    RecordRequiredButNotFound(String),
    /// Nothing.
    Null,
}

/// The mathematical model of a [`CompactedResponse`].
pub enum CompactedResponseView {
    Data(Seq<(Seq<char>, ItemView)>),
    RecordRequiredButNotFound(Seq<char>),
    Null,
}

impl View for CompactedResponse {
    type V = CompactedResponseView;

    open spec fn view(&self) -> CompactedResponseView {
        match self {
            CompactedResponse::Data(row) => CompactedResponseView::Data(row_entries(*row)),
            CompactedResponse::RecordRequiredButNotFound(cause) =>
                CompactedResponseView::RecordRequiredButNotFound(cause@),
            CompactedResponse::Null => CompactedResponseView::Null,
        }
    }
}

/// The arguments that each record answers to, with the record's place.
pub open spec fn indexed_records(
    rows: Seq<IndexMap<String, Item>>,
    keys: Seq<Seq<char>>,
) -> Seq<ArgsToResultView> {
    Seq::new(
        rows.len(),
        |i: int|
            ArgsToResultView {
                args: record_arguments(row_entries(rows[i]), keys),
                result: i as usize,
            },
    )
}

/// The answer to the query with the arguments `input_args`: the first record whose arguments
/// agree with them, reduced to the selected fields; where there is none, the error if the
/// query demands a record, and nothing if it does not.
pub open spec fn compacted_answer(
    rows: Seq<IndexMap<String, Item>>,
    keys: Seq<Seq<char>>,
    input_args: Seq<ArgumentEntryView>,
    nested_selection: Seq<Seq<char>>,
    throw_on_empty: bool,
) -> CompactedResponseView {
    match first_agreeing(indexed_records(rows, keys), input_args, 0) {
        Some(place) => CompactedResponseView::Data(
            selected_entries(row_entries(rows[place as int]), nested_selection),
        ),
        None => if throw_on_empty {
            CompactedResponseView::RecordRequiredButNotFound("No record was found for a query."@)
        } else {
            CompactedResponseView::Null
        },
    }
}

/// The place that was found is the place of a record.
pub proof fn lemma_first_agreeing_in_range(
    rows: Seq<IndexMap<String, Item>>,
    keys: Seq<Seq<char>>,
    input_args: Seq<ArgumentEntryView>,
    from: int,
)
    requires
        0 <= from,
        rows.len() <= usize::MAX,
    ensures
        first_agreeing(indexed_records(rows, keys), input_args, from) matches Some(place)
            ==> place < rows.len(),
    decreases rows.len() - from,
{
    if from < rows.len() && !arguments_agree(indexed_records(rows, keys)[from].args, input_args) {
        lemma_first_agreeing_in_range(rows, keys, input_args, from + 1);
    }
}

/// Answers each query of a compacted batch from the records of the one read that was run for
/// all of them.
///
/// `rows` are the records, `keys` the names of the arguments by which the queries differ,
/// `arguments` the arguments of each query, and `nested_selection` the fields that the queries
/// select.
pub fn compact_responses(
    rows: &Vec<IndexMap<String, Item>>,
    keys: &Vec<String>,
    arguments: &Vec<Vec<ArgumentEntry>>,
    nested_selection: &FieldSelection,
    throw_on_empty: bool,
) -> (r: Vec<CompactedResponse>)
    ensures
        r.len() == arguments.len(),
        forall|j: int|
            0 <= j < arguments.len() ==> (#[trigger] r[j])@ == compacted_answer(
                rows@,
                keys.deep_view(),
                arguments[j].deep_view(),
                nested_selection@,
                throw_on_empty,
            ),
{
    let args_to_results = index_by(rows, keys);
    assert(args_to_results.deep_view() =~= indexed_records(rows@, keys.deep_view()));
    let mut responses: Vec<CompactedResponse> = Vec::new();
    let mut j: usize = 0;
    while j < arguments.len()
        invariant
            j <= arguments.len(),
            args_to_results.deep_view() == indexed_records(rows@, keys.deep_view()),
            responses.len() == j,
            forall|i: int|
                0 <= i < j ==> (#[trigger] responses[i])@ == compacted_answer(
                    rows@,
                    keys.deep_view(),
                    arguments[i].deep_view(),
                    nested_selection@,
                    throw_on_empty,
                ),
        decreases arguments.len() - j,
    {
        let count = rows.len();
        proof {
            assert(rows@.len() == count);
            lemma_first_agreeing_in_range(
                rows@,
                keys.deep_view(),
                arguments[j as int].deep_view(),
                0,
            );
        }
        let response = match find_original_result_from_args(&args_to_results, &arguments[j]) {
            Some(place) => CompactedResponse::Data(select_fields(&rows[place], nested_selection)),
            None => if throw_on_empty {
                CompactedResponse::RecordRequiredButNotFound(
                    String::from_str("No record was found for a query."),
                )
            } else {
                CompactedResponse::Null
            },
        };
        responses.push(response);
        j += 1;
    }
    responses
}

} // verus!
