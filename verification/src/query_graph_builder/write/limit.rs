//! The `limit` argument of a write on many records.

use crate::document::{ParsedArgument, ParsedArgumentView, ParsedInputValue, ParsedInputValueView};
use crate::error::{QueryGraphBuilderError, QueryGraphBuilderErrorView};
use crate::value::{PrismaValue, PrismaValueView};
use vstd::prelude::*;
use vstd::string::*;

verus! {

/// The message of the error for a limit below zero.
pub open spec fn negative_limit_message() -> Seq<char> {
    "Provided limit must be a positive integer."@
}

/// The limit that the argument gives.
///
/// No argument, or one that holds no integer, gives no limit. A negative integer, or one that
/// does not fit the machine's word, is an error.
pub open spec fn limit_of(argument: Option<ParsedArgumentView>) -> Result<
    Option<usize>,
    QueryGraphBuilderErrorView,
> {
    match argument {
        Some(
            ParsedArgumentView { value: ParsedInputValueView::Single(PrismaValueView::Int(i)), .. },
        ) => if 0 <= i <= usize::MAX {
            Ok(Some(i as usize))
        } else {
            Err(QueryGraphBuilderErrorView::InputError(negative_limit_message()))
        },
        _ => Ok(None),
    }
}

/// Reads the limit of a write on many records from its argument.
pub fn validate_limit(limit_arg: Option<ParsedArgument>) -> (r: Result<
    Option<usize>,
    QueryGraphBuilderError,
>)
    ensures
        match limit_of(limit_arg.deep_view()) {
            Ok(limit) => r is Ok && r->Ok_0 == limit,
            Err(error) => r is Err && r->Err_0@ == error,
        },
{
    match limit_arg {
        Some(ParsedArgument { value: ParsedInputValue::Single(PrismaValue::Int(i)), .. }) => {
            if i < 0 || i as u64 > usize::MAX as u64 {
                Err(
                    QueryGraphBuilderError::InputError(
                        String::from_str("Provided limit must be a positive integer."),
                    ),
                )
            } else {
                Ok(Some(i as usize))
            }
        },
        _ => Ok(None),
    }
}

} // verus!
