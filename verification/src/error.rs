//! What can go wrong while a request is compiled into a graph.

use vstd::prelude::*;

verus! {

/// A structural error found while building a query graph, before any database work.
#[derive(Debug, PartialEq, Eq)]
pub enum QueryGraphBuilderError {
    /// The request's arguments do not have the shape the operation asks for.
    InputError(String),
    /// Something the builder relies on while wiring nodes together does not hold.
    AssertionError(String),
}

/// The mathematical model of a [`QueryGraphBuilderError`].
pub enum QueryGraphBuilderErrorView {
    InputError(Seq<char>),
    AssertionError(Seq<char>),
}

impl View for QueryGraphBuilderError {
    type V = QueryGraphBuilderErrorView;

    open spec fn view(&self) -> QueryGraphBuilderErrorView {
        match self {
            QueryGraphBuilderError::InputError(m) => QueryGraphBuilderErrorView::InputError(m@),
            QueryGraphBuilderError::AssertionError(m) => QueryGraphBuilderErrorView::AssertionError(
                m@,
            ),
        }
    }
}

impl DeepView for QueryGraphBuilderError {
    type V = QueryGraphBuilderErrorView;

    open spec fn deep_view(&self) -> QueryGraphBuilderErrorView {
        self@
    }
}

impl Clone for QueryGraphBuilderError {
    fn clone(&self) -> (r: Self)
        ensures
            r@ == self@,
    {
        match self {
            QueryGraphBuilderError::InputError(m) => QueryGraphBuilderError::InputError(m.clone()),
            QueryGraphBuilderError::AssertionError(m) => QueryGraphBuilderError::AssertionError(
                m.clone(),
            ),
        }
    }
}

/// The kind of operation during which a record was looked for.
#[derive(Clone, Copy, Debug, PartialEq, Eq, Structural)]
pub enum DataOperation {
    Query,
    Update,
    Upsert,
    Delete,
}

/// The error raised when a record that an operation needs does not exist.
#[derive(Clone, Copy, Debug, PartialEq, Eq, Structural)]
pub struct MissingRecord {
    pub operation: DataOperation,
}

/// The error raised when fewer records were found to connect than the request names.
#[derive(Clone, Copy, Debug, PartialEq, Eq, Structural)]
pub struct IncompleteConnectInput {
    pub expected_rows: usize,
}

/// The error that a data expectation raises if it is violated.
#[derive(Clone, Copy, Debug, PartialEq, Eq, Structural)]
pub enum DataDependencyError {
    MissingRecord(MissingRecord),
    IncompleteConnectInput(IncompleteConnectInput),
}

/// A violated data expectation, as the client sees it.
#[derive(Clone, Copy, Debug, PartialEq, Eq, Structural)]
pub enum UserFacingError {
    /// A record that the operation depends on was not found.
    MissingRecord { operation: DataOperation },
    /// Fewer related records were found than were to be connected.
    IncompleteConnect { expected: usize, actual: usize },
}

impl DataDependencyError {
    /// The client-facing error for a source that produced `actual` rows.
    pub open spec fn spec_report(self, actual: usize) -> UserFacingError {
        match self {
            DataDependencyError::MissingRecord(e) => UserFacingError::MissingRecord {
                operation: e.operation,
            },
            DataDependencyError::IncompleteConnectInput(e) => UserFacingError::IncompleteConnect {
                expected: e.expected_rows,
                actual,
            },
        }
    }

    /// The client-facing error for a source that produced `actual` rows.
    #[verifier::when_used_as_spec(spec_report)]
    pub fn report(self, actual: usize) -> (r: UserFacingError)
        ensures
            r == self.spec_report(actual),
    {
        match self {
            DataDependencyError::MissingRecord(e) => UserFacingError::MissingRecord {
                operation: e.operation,
            },
            DataDependencyError::IncompleteConnectInput(e) => UserFacingError::IncompleteConnect {
                expected: e.expected_rows,
                actual,
            },
        }
    }
}

} // verus!
