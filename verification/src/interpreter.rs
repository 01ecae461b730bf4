//! The executor of query graphs, as a state machine.
//!
//! The machine decides which node comes next, holds the expectations of its incoming edges
//! against what its sources produced, and rewrites it by their rows. Running an operation
//! against the database is the caller's part: the machine names the node, the caller runs its
//! operation and hands back what the connector answered.

use crate::error::{
    MissingRecord, QueryGraphBuilderError, QueryGraphBuilderErrorView,
    UserFacingError,
};
use crate::query_graph::{
    count_queries, lemma_count_update, DataExpectation, Edge, Node, NodeRef, NodeView,
    QueryGraph, QueryGraphDependency, QueryGraphDependencyView, QueryGraphView, RowSink,
    Transform,
};
use crate::schema::FieldSelection;
use crate::value::{FieldValue, FieldValueView, SelectionResult};
use vstd::prelude::*;

verus! {

/// Where a node stands in the execution of its graph.
#[derive(Clone, Copy, Debug, PartialEq, Eq, Structural)]
pub enum NodeState {
    /// Not reached yet, or handed to the connector and not yet answered.
    Pending,
    /// Done, with an output.
    Executed,
    /// Left out, because what it would have worked on does not exist.
    Skipped,
    /// Ended in an error, and with it the execution.
    Failed,
}

/// What the connector answers to an operation.
#[derive(Debug, PartialEq, Eq)]
pub enum QueryResult {
    /// The rows read or written.
    Rows(Vec<SelectionResult>),
    /// The number of records affected.
    Count(usize),
}

/// The mathematical model of a [`QueryResult`].
pub enum QueryResultView {
    Rows(Seq<Seq<FieldValueView>>),
    Count(usize),
}

impl QueryResultView {
    /// The rows of the result; a count has none.
    pub open spec fn rows(self) -> Seq<Seq<FieldValueView>> {
        match self {
            QueryResultView::Rows(rows) => rows,
            QueryResultView::Count(_) => Seq::empty(),
        }
    }
}

impl View for QueryResult {
    type V = QueryResultView;

    open spec fn view(&self) -> QueryResultView {
        match self {
            QueryResult::Rows(rows) => QueryResultView::Rows(rows.deep_view()),
            QueryResult::Count(count) => QueryResultView::Count(*count),
        }
    }
}

impl DeepView for QueryResult {
    type V = QueryResultView;

    open spec fn deep_view(&self) -> QueryResultView {
        self@
    }
}

impl Clone for QueryResult {
    fn clone(&self) -> (r: Self)
        ensures
            r@ == self@,
    {
        match self {
            QueryResult::Rows(rows) => {
                let copy = rows.clone();
                assert(copy.deep_view() =~= rows.deep_view());
                QueryResult::Rows(copy)
            },
            QueryResult::Count(count) => QueryResult::Count(*count),
        }
    }
}

/// An error of the connector, passed on as it came.
#[derive(Debug, PartialEq, Eq)]
pub struct ConnectorError {
    pub message: String,
}

/// Why an execution ended without a result.
#[derive(Debug, PartialEq, Eq)]
pub enum ExecutionError {
    /// The rows of a source could not be fitted into the node that depends on them.
    Builder(QueryGraphBuilderError),
    /// A source did not produce what an edge expects of it.
    Expectation(UserFacingError),
    /// The connector failed.
    Connector(ConnectorError),
    /// The caller cancelled the execution.
    Cancelled,
    /// Nodes are left that wait for each other.
    CyclicDependency,
}

/// The mathematical model of an [`ExecutionError`].
pub enum ExecutionErrorView {
    Builder(QueryGraphBuilderErrorView),
    Expectation(UserFacingError),
    Connector(Seq<char>),
    Cancelled,
    CyclicDependency,
}

impl View for ExecutionError {
    type V = ExecutionErrorView;

    open spec fn view(&self) -> ExecutionErrorView {
        match self {
            ExecutionError::Builder(e) => ExecutionErrorView::Builder(e@),
            ExecutionError::Expectation(e) => ExecutionErrorView::Expectation(*e),
            ExecutionError::Connector(e) => ExecutionErrorView::Connector(e.message@),
            ExecutionError::Cancelled => ExecutionErrorView::Cancelled,
            ExecutionError::CyclicDependency => ExecutionErrorView::CyclicDependency,
        }
    }
}

impl DeepView for ExecutionError {
    type V = ExecutionErrorView;

    open spec fn deep_view(&self) -> ExecutionErrorView {
        self@
    }
}

impl Clone for ExecutionError {
    fn clone(&self) -> (r: Self)
        ensures
            r@ == self@,
    {
        match self {
            ExecutionError::Builder(e) => ExecutionError::Builder(e.clone()),
            ExecutionError::Expectation(e) => ExecutionError::Expectation(*e),
            ExecutionError::Connector(e) => ExecutionError::Connector(
                ConnectorError { message: e.message.clone() },
            ),
            ExecutionError::Cancelled => ExecutionError::Cancelled,
            ExecutionError::CyclicDependency => ExecutionError::CyclicDependency,
        }
    }
}

/// The fields of `row` that `selection` names, in the order of the row.
pub open spec fn project_row(row: Seq<FieldValueView>, selection: Seq<Seq<char>>) -> Seq<
    FieldValueView,
>
    decreases row.len(),
{
    if row.len() == 0 {
        Seq::empty()
    } else {
        let before = project_row(row.drop_last(), selection);
        if selection.contains(row.last().field) {
            before.push(row.last())
        } else {
            before
        }
    }
}

/// Each row reduced to the fields that `selection` names.
pub open spec fn project(rows: Seq<Seq<FieldValueView>>, selection: Seq<Seq<char>>) -> Seq<
    Seq<FieldValueView>,
> {
    rows.map_values(|row: Seq<FieldValueView>| project_row(row, selection))
}

/// Reduces a row to the fields that `selection` names.
pub fn project_selection(row: &SelectionResult, selection: &FieldSelection) -> (r: SelectionResult)
    ensures
        r@ == project_row(row@, selection@),
{
    let mut pairs: Vec<FieldValue> = Vec::new();
    let ghost all = row@;
    let mut i: usize = 0;
    while i < row.pairs.len()
        invariant
            i <= row.pairs.len(),
            all == row@,
            pairs.deep_view() == project_row(all.take(i as int), selection@),
        decreases row.pairs.len() - i,
    {
        assert(all.take(i + 1).drop_last() =~= all.take(i as int));
        if selection.contains(&row.pairs[i].field) {
            let ghost before = pairs.deep_view();
            pairs.push(row.pairs[i].clone());
            assert(pairs.deep_view() =~= before.push(all[i as int]));
        }
        i += 1;
    }
    assert(all.take(i as int) =~= all);
    SelectionResult { pairs }
}

/// Reduces each row of a result to the fields that `selection` names.
pub fn project_rows(result: &QueryResult, selection: &FieldSelection) -> (r: Vec<SelectionResult>)
    ensures
        r.deep_view() == project(result@.rows(), selection@),
{
    let mut out: Vec<SelectionResult> = Vec::new();
    match result {
        QueryResult::Rows(rows) => {
            let mut i: usize = 0;
            while i < rows.len()
                invariant
                    i <= rows.len(),
                    out.len() == i,
                    forall|j: int| 0 <= j < i ==> out[j]@ == project_row(rows[j]@, selection@),
                decreases rows.len() - i,
            {
                out.push(project_selection(&rows[i], selection));
                i += 1;
            }
            assert(out.deep_view() =~= project(result@.rows(), selection@));
        },
        QueryResult::Count(_) => {
            assert(out.deep_view() =~= project(result@.rows(), selection@));
        },
    }
    out
}

impl QueryGraphDependencyView {
    /// The fields of the source's rows that the dependency asks for; none for a dependency
    /// that only orders.
    pub open spec fn selection(self) -> Option<Seq<Seq<char>>> {
        match self {
            QueryGraphDependencyView::ExecutionOrder => None,
            QueryGraphDependencyView::ProjectedDataDependency(selection, _, _) => Some(selection),
            QueryGraphDependencyView::ProjectedDataSinkDependency(selection, _, _) => Some(
                selection,
            ),
        }
    }

    /// The target as the rows of the source rewrite it, or the error that they give rise to.
    pub open spec fn rewrite(self, node: NodeView, rows: Seq<Seq<FieldValueView>>) -> Result<
        NodeView,
        QueryGraphBuilderErrorView,
    > {
        match self {
            QueryGraphDependencyView::ExecutionOrder => Ok(node),
            QueryGraphDependencyView::ProjectedDataDependency(_, transform, _) => transform.apply(
                node,
                rows,
            ),
            QueryGraphDependencyView::ProjectedDataSinkDependency(_, sink, _) => sink.write(
                node,
                rows,
            ),
        }
    }
}

/// What the step of an execution tells the caller to do.
#[derive(Debug, PartialEq, Eq)]
pub enum Step {
    /// Run the operation of this node against the connector and hand back what it answers.
    Execute(NodeRef),
    /// A node was dealt with that needs no connector; step again.
    Continue,
    /// The execution is over: this is the output of the result node, or the error.
    Finished(Result<Option<QueryResult>, ExecutionError>),
}

/// The mathematical model of a [`Step`].
pub enum StepView {
    Execute(NodeRef),
    Continue,
    Finished(Result<Option<QueryResultView>, ExecutionErrorView>),
}

impl View for Step {
    type V = StepView;

    open spec fn view(&self) -> StepView {
        match self {
            Step::Execute(node) => StepView::Execute(*node),
            Step::Continue => StepView::Continue,
            Step::Finished(Ok(output)) => StepView::Finished(Ok(output.deep_view())),
            Step::Finished(Err(error)) => StepView::Finished(Err(error@)),
        }
    }
}

/// What holding a node against its sources comes to.
pub enum Prepared {
    /// The node is left out.
    Skip,
    /// The execution fails; the node is as far rewritten as it was when the error came.
    Fail(NodeView, ExecutionErrorView),
    /// The node runs, rewritten like this.
    Run(NodeView),
}

/// The execution of one graph: which nodes are done, and what they produced.
#[derive(Debug, PartialEq, Eq)]
pub struct Execution {
    pub graph: QueryGraph,
    pub states: Vec<NodeState>,
    pub outputs: Vec<Option<QueryResult>>,
    pub waiting: Option<usize>,
    pub failure: Option<ExecutionError>,
    pub missing_result: MissingRecord,
}

/// The mathematical model of an [`Execution`].
pub struct ExecutionView {
    pub graph: QueryGraphView,
    pub states: Seq<NodeState>,
    pub outputs: Seq<Option<QueryResultView>>,
    pub waiting: Option<usize>,
    pub failure: Option<ExecutionErrorView>,
    pub missing_result: MissingRecord,
}

impl View for Execution {
    type V = ExecutionView;

    open spec fn view(&self) -> ExecutionView {
        ExecutionView {
            graph: self.graph@,
            states: self.states@,
            outputs: self.outputs.deep_view(),
            waiting: self.waiting,
            failure: self.failure.deep_view(),
            missing_result: self.missing_result,
        }
    }
}

impl ExecutionView {
    /// The execution of `graph` before its first step.
    pub open spec fn start(graph: QueryGraphView, missing_result: MissingRecord) -> ExecutionView {
        ExecutionView {
            graph,
            states: Seq::new(graph.nodes.len(), |i: int| NodeState::Pending),
            outputs: Seq::new(graph.nodes.len(), |i: int| None),
            waiting: None,
            failure: None,
            missing_result,
        }
    }

    /// Whether the node is done or left out.
    pub open spec fn finished(self, node: int) -> bool {
        self.states[node] is Executed || self.states[node] is Skipped
    }

    /// Whether the source of every edge into the node is done or left out.
    pub open spec fn sources_finished(self, node: int) -> bool {
        forall|i: int|
            0 <= i < self.graph.edges.len() && (#[trigger] self.graph.edges[i]).target == node
                ==> self.finished(self.graph.edges[i].source as int)
    }

    /// Whether the node can be dealt with now.
    pub open spec fn ready(self, node: int) -> bool {
        &&& 0 <= node < self.states.len()
        &&& self.states[node] is Pending
        &&& self.sources_finished(node)
    }

    /// The first node from `from` on that is ready.
    pub open spec fn first_ready(self, from: int) -> Option<usize>
        decreases self.states.len() - from,
    {
        if from < 0 || from >= self.states.len() {
            None
        } else if self.ready(from) {
            Some(from as usize)
        } else {
            self.first_ready(from + 1)
        }
    }

    /// Whether a node is still pending.
    pub open spec fn any_pending(self) -> bool {
        exists|i: int| 0 <= i < self.states.len() && (#[trigger] self.states[i]) is Pending
    }

    /// The state is consistent: every node has a state and a place for its output, executed
    /// nodes have an output, no node was begun before all its sources were done or left out,
    /// an execution in which a node has failed has failed, and the node that waits for the
    /// connector is a pending operation.
    pub open spec fn wf(self) -> bool {
        &&& self.graph.wf()
        &&& self.states.len() <= usize::MAX
        &&& self.states.len() == self.graph.nodes.len()
        &&& self.outputs.len() == self.graph.nodes.len()
        &&& forall|i: int|
            0 <= i < self.states.len() && (#[trigger] self.states[i]) is Executed
                ==> self.outputs[i] is Some
        &&& forall|i: int|
            0 <= i < self.graph.edges.len() && !(self.states[(
            #[trigger] self.graph.edges[i]).target as int] is Pending) ==> self.finished(
                self.graph.edges[i].source as int,
            )
        &&& forall|i: int|
            0 <= i < self.states.len() && (#[trigger] self.states[i]) is Failed
                ==> self.failure is Some
        &&& self.waiting matches Some(node) ==> {
            &&& self.ready(node as int)
            &&& self.graph.nodes[node as int].is_query()
        }
    }

    /// Whether an edge into the node comes from a source that was left out.
    pub open spec fn source_skipped(self, node: int) -> bool {
        exists|i: int|
            0 <= i < self.graph.edges.len() && (#[trigger] self.graph.edges[i]).target == node
                && self.states[self.graph.edges[i].source as int] is Skipped
    }

    /// The rows that the edge carries: those of its source's output, reduced to the fields that
    /// the dependency asks for.
    pub open spec fn edge_rows(self, edge: int) -> Seq<Seq<FieldValueView>> {
        match (
            self.graph.edges[edge].dependency.selection(),
            self.outputs[self.graph.edges[edge].source as int],
        ) {
            (Some(selection), Some(output)) => project(output.rows(), selection),
            _ => Seq::empty(),
        }
    }

    /// The error of the edge if it leads to the node and its expectation is not met.
    pub open spec fn violation_at(self, node: int, edge: int) -> Option<UserFacingError> {
        match self.graph.edges[edge].dependency.expectation() {
            Some(expectation) => if self.graph.edges[edge].target == node && !expectation.holds(
                self.edge_rows(edge).len() as usize,
            ) {
                Some(expectation.error.spec_report(self.edge_rows(edge).len() as usize))
            } else {
                None
            },
            None => None,
        }
    }

    /// The error of the first among the first `upto` edges that leads to the node with an
    /// expectation which is not met.
    pub open spec fn first_violation(self, node: int, upto: int) -> Option<UserFacingError>
        decreases upto,
    {
        if upto <= 0 {
            None
        } else {
            match self.first_violation(node, upto - 1) {
                Some(error) => Some(error),
                None => self.violation_at(node, upto - 1),
            }
        }
    }

    /// Whether an edge into the node carries no row and thereby leaves the node without work.
    pub open spec fn starved(self, node: int) -> bool {
        exists|i: int|
            0 <= i < self.graph.edges.len() && (#[trigger] self.graph.edges[i]).target == node
                && self.graph.edges[i].dependency.elides_on_no_rows() && self.edge_rows(i).len()
                == 0
    }

    /// The node as the first `upto` edges rewrite it, each by the rows it carries, in the order
    /// in which the edges were created; with the first error, rewriting ends.
    pub open spec fn rewritten(self, node: int, upto: int) -> (NodeView, Option<
        QueryGraphBuilderErrorView,
    >)
        decreases upto,
    {
        if upto <= 0 {
            (self.graph.nodes[node], None)
        } else {
            let before = self.rewritten(node, upto - 1);
            if before.1 is Some || self.graph.edges[upto - 1].target != node {
                before
            } else {
                match self.graph.edges[upto - 1].dependency.rewrite(
                    before.0,
                    self.edge_rows(upto - 1),
                ) {
                    Ok(rewritten) => (rewritten, None),
                    Err(error) => (before.0, Some(error)),
                }
            }
        }
    }

    /// What holding the node against its sources comes to.
    ///
    /// A node behind a source that was left out is left out. Else the expectations of all
    /// edges into the node are held against the rows they carry, in the order of the edges, and
    /// the first that is not met fails the execution. Else a node that an edge leaves without
    /// work is left out. Else the edges rewrite the node, in their order.
    pub open spec fn prepare(self, node: int) -> Prepared {
        if self.source_skipped(node) {
            Prepared::Skip
        } else {
            match self.first_violation(node, self.graph.edges.len() as int) {
                Some(error) => Prepared::Fail(
                    self.graph.nodes[node],
                    ExecutionErrorView::Expectation(error),
                ),
                None => if self.starved(node) {
                    Prepared::Skip
                } else {
                    let rewritten = self.rewritten(node, self.graph.edges.len() as int);
                    match rewritten.1 {
                        Some(error) => Prepared::Fail(
                            rewritten.0,
                            ExecutionErrorView::Builder(error),
                        ),
                        None => Prepared::Run(rewritten.0),
                    }
                },
            }
        }
    }

    /// What the execution hands back when no node is left: the output of the result node, the
    /// missing-record error if the result node was left out, nothing if there is no result
    /// node.
    pub open spec fn outcome(self) -> Result<Option<QueryResultView>, ExecutionErrorView> {
        match self.graph.result_node {
            Some(node) => if self.states[node as int] is Skipped {
                Err(
                    ExecutionErrorView::Expectation(
                        UserFacingError::MissingRecord { operation: self.missing_result.operation },
                    ),
                )
            } else {
                Ok(self.outputs[node as int])
            },
            None => Ok(None),
        }
    }

    /// The same execution with another node in place of `node`.
    pub open spec fn with_node(self, node: int, rewritten: NodeView) -> ExecutionView {
        ExecutionView {
            graph: QueryGraphView { nodes: self.graph.nodes.update(node, rewritten), ..self.graph },
            ..self
        }
    }

    /// The same execution with `node` in another state.
    pub open spec fn with_state(self, node: int, state: NodeState) -> ExecutionView {
        ExecutionView { states: self.states.update(node, state), ..self }
    }

    /// The same execution, failed.
    pub open spec fn failed(self, error: ExecutionErrorView) -> ExecutionView {
        ExecutionView { failure: Some(error), waiting: None, ..self }
    }

    /// The execution after its next step, and what the step tells the caller.
    ///
    /// A failed execution stays as it is and reports its error. An execution that waits for the
    /// connector names the node again. Else the first ready node, in the order in which the
    /// nodes were created, is held against its sources: it is left out, or fails the
    /// execution, or is rewritten and then either named to the caller, if it is an operation,
    /// or done at once with no rows. Where no node is ready, the execution is over if none is
    /// pending, and fails if some are.
    pub open spec fn step(self) -> (ExecutionView, StepView) {
        if self.failure is Some {
            (self, StepView::Finished(Err(self.failure->Some_0)))
        } else if self.waiting is Some {
            (self, StepView::Execute(NodeRef { node_ix: self.waiting->Some_0 }))
        } else {
            match self.first_ready(0) {
                None => if self.any_pending() {
                    (
                        self.failed(ExecutionErrorView::CyclicDependency),
                        StepView::Finished(Err(ExecutionErrorView::CyclicDependency)),
                    )
                } else {
                    (self, StepView::Finished(self.outcome()))
                },
                Some(node) => match self.prepare(node as int) {
                    Prepared::Skip => (
                        self.with_state(node as int, NodeState::Skipped),
                        StepView::Continue,
                    ),
                    Prepared::Fail(rewritten, error) => (
                        self.with_node(node as int, rewritten).with_state(
                            node as int,
                            NodeState::Failed,
                        ).failed(error),
                        StepView::Finished(Err(error)),
                    ),
                    Prepared::Run(rewritten) => if rewritten.is_query() {
                        (
                            ExecutionView {
                                waiting: Some(node),
                                ..self.with_node(node as int, rewritten)
                            },
                            StepView::Execute(NodeRef { node_ix: node }),
                        )
                    } else {
                        (
                            ExecutionView {
                                outputs: self.outputs.update(
                                    node as int,
                                    Some(QueryResultView::Rows(Seq::empty())),
                                ),
                                ..self.with_node(node as int, rewritten).with_state(
                                    node as int,
                                    NodeState::Executed,
                                )
                            },
                            StepView::Continue,
                        )
                    },
                },
            }
        }
    }

    /// The execution after the connector answered for the node that waited.
    ///
    /// With a result the node is done and the result is its output; with an error the node and
    /// the execution fail. An answer that nothing waits for changes nothing.
    pub open spec fn complete(self, answer: Result<QueryResultView, Seq<char>>) -> ExecutionView {
        match self.waiting {
            Some(node) => match answer {
                Ok(result) => ExecutionView {
                    outputs: self.outputs.update(node as int, Some(result)),
                    waiting: None,
                    ..self.with_state(node as int, NodeState::Executed)
                },
                Err(message) => self.with_state(node as int, NodeState::Failed).failed(
                    ExecutionErrorView::Connector(message),
                ),
            },
            None => self,
        }
    }

    /// The execution after the caller cancelled it: failed, unless it had failed before.
    pub open spec fn cancel(self) -> ExecutionView {
        if self.failure is Some {
            self
        } else {
            self.failed(ExecutionErrorView::Cancelled)
        }
    }
}

impl Execution {
    /// Begins the execution of a graph. `missing_result` is the error to hand back if the
    /// result node is left out.
    pub fn new(graph: QueryGraph, missing_result: MissingRecord) -> (execution: Execution)
        requires
            graph@.wf(),
        ensures
            execution@ == ExecutionView::start(graph@, missing_result),
            execution@.wf(),
    {
        let mut states: Vec<NodeState> = Vec::new();
        let mut outputs: Vec<Option<QueryResult>> = Vec::new();
        let mut i: usize = 0;
        while i < graph.nodes.len()
            invariant
                i <= graph.nodes.len(),
                states.len() == i,
                outputs.len() == i,
                forall|j: int| 0 <= j < i ==> states[j] is Pending,
                forall|j: int| 0 <= j < i ==> outputs[j] is None,
            decreases graph.nodes.len() - i,
        {
            states.push(NodeState::Pending);
            outputs.push(None);
            i += 1;
        }
        let execution = Execution {
            graph,
            states,
            outputs,
            waiting: None,
            failure: None,
            missing_result,
        };
        assert(execution@.states =~= ExecutionView::start(graph@, missing_result).states);
        assert(execution@.outputs =~= ExecutionView::start(graph@, missing_result).outputs);
        execution
    }

    /// The node behind a handle, as the execution has rewritten it so far.
    pub fn node(&self, handle: &NodeRef) -> (r: &Node)
        requires
            self@.graph.contains(*handle),
        ensures
            r@ == self@.graph.nodes[handle.node_ix as int],
    {
        &self.graph.nodes[handle.node_ix]
    }

    /// Where the node behind a handle stands.
    pub fn state(&self, handle: &NodeRef) -> (r: NodeState)
        requires
            self@.wf(),
            self@.graph.contains(*handle),
        ensures
            r == self@.states[handle.node_ix as int],
    {
        self.states[handle.node_ix]
    }

    /// Whether the execution must run inside one transaction.
    pub fn needs_transaction(&self) -> (r: bool)
        ensures
            r == self@.graph.transactional,
    {
        self.graph.transactional
    }

    fn is_finished(&self, node: usize) -> (r: bool)
        requires
            node < self.states.len(),
        ensures
            r == self@.finished(node as int),
    {
        match self.states[node] {
            NodeState::Executed => true,
            NodeState::Skipped => true,
            _ => false,
        }
    }

    fn sources_finished(&self, node: usize) -> (r: bool)
        requires
            self@.wf(),
        ensures
            r == self@.sources_finished(node as int),
    {
        let mut i: usize = 0;
        while i < self.graph.edges.len()
            invariant
                self@.wf(),
                i <= self.graph.edges.len(),
                forall|j: int|
                    0 <= j < i && (#[trigger] self@.graph.edges[j]).target == node
                        ==> self@.finished(self@.graph.edges[j].source as int),
            decreases self.graph.edges.len() - i,
        {
            let edge: &Edge = &self.graph.edges[i];
            assert(edge@ == self@.graph.edges[i as int]);
            if edge.target == node && !self.is_finished(edge.source) {
                return false;
            }
            i += 1;
        }
        true
    }

    fn find_ready(&self) -> (r: Option<usize>)
        requires
            self@.wf(),
        ensures
            r == self@.first_ready(0),
    {
        let mut i: usize = 0;
        while i < self.states.len()
            invariant
                self@.wf(),
                i <= self.states.len(),
                self@.first_ready(0) == self@.first_ready(i as int),
            decreases self.states.len() - i,
        {
            let pending = matches!(self.states[i], NodeState::Pending);
            if pending && self.sources_finished(i) {
                return Some(i);
            }
            i += 1;
        }
        None
    }

    fn any_pending(&self) -> (r: bool)
        ensures
            r == self@.any_pending(),
    {
        let mut i: usize = 0;
        while i < self.states.len()
            invariant
                i <= self.states.len(),
                forall|j: int| 0 <= j < i ==> !(self.states[j] is Pending),
            decreases self.states.len() - i,
        {
            if matches!(self.states[i], NodeState::Pending) {
                assert(self@.states[i as int] is Pending);
                return true;
            }
            i += 1;
        }
        false
    }

    fn source_skipped(&self, node: usize) -> (r: bool)
        requires
            self@.wf(),
        ensures
            r == self@.source_skipped(node as int),
    {
        let mut i: usize = 0;
        while i < self.graph.edges.len()
            invariant
                self@.wf(),
                i <= self.graph.edges.len(),
                forall|j: int|
                    0 <= j < i ==> !((#[trigger] self@.graph.edges[j]).target == node
                        && self@.states[self@.graph.edges[j].source as int] is Skipped),
            decreases self.graph.edges.len() - i,
        {
            let edge: &Edge = &self.graph.edges[i];
            assert(edge@ == self@.graph.edges[i as int]);
            if edge.target == node && matches!(self.states[edge.source], NodeState::Skipped) {
                return true;
            }
            i += 1;
        }
        false
    }

    fn edge_rows(&self, edge: usize) -> (r: Vec<SelectionResult>)
        requires
            self@.wf(),
            edge < self.graph.edges.len(),
        ensures
            r.deep_view() == self@.edge_rows(edge as int),
    {
        let the_edge: &Edge = &self.graph.edges[edge];
        assert(the_edge@ == self@.graph.edges[edge as int]);
        let output: &Option<QueryResult> = &self.outputs[the_edge.source];
        assert(output.deep_view() == self@.outputs[the_edge.source as int]);
        let selection: Option<&FieldSelection> = match &the_edge.dependency {
            QueryGraphDependency::ExecutionOrder => None,
            QueryGraphDependency::ProjectedDataDependency(selection, _, _) => Some(selection),
            QueryGraphDependency::ProjectedDataSinkDependency(selection, _, _) => Some(selection),
        };
        match (selection, output) {
            (Some(selection), Some(output)) => project_rows(output, selection),
            _ => {
                let none: Vec<SelectionResult> = Vec::new();
                assert(none.deep_view() =~= Seq::empty());
                none
            },
        }
    }

    fn first_violation(&self, node: usize) -> (r: Option<UserFacingError>)
        requires
            self@.wf(),
        ensures
            r == self@.first_violation(node as int, self@.graph.edges.len() as int),
    {
        let mut i: usize = 0;
        while i < self.graph.edges.len()
            invariant
                self@.wf(),
                i <= self.graph.edges.len(),
                self@.first_violation(node as int, i as int) is None,
            decreases self.graph.edges.len() - i,
        {
            let edge: &Edge = &self.graph.edges[i];
            assert(edge@ == self@.graph.edges[i as int]);
            if edge.target == node {
                let expectation: Option<DataExpectation> = match &edge.dependency {
                    QueryGraphDependency::ExecutionOrder => None,
                    QueryGraphDependency::ProjectedDataDependency(_, _, e) => *e,
                    QueryGraphDependency::ProjectedDataSinkDependency(_, _, e) => *e,
                };
                match expectation {
                    Some(expectation) => {
                        let rows = self.edge_rows(i);
                        match expectation.check(rows.len()) {
                            Ok(()) => {},
                            Err(error) => {
                                proof {
                                    self@.lemma_violation_stays(node as int, i + 1);
                                }
                                return Some(error);
                            },
                        }
                    },
                    None => {},
                }
            }
            i += 1;
        }
        None
    }

    fn starved(&self, node: usize) -> (r: bool)
        requires
            self@.wf(),
        ensures
            r == self@.starved(node as int),
    {
        let mut i: usize = 0;
        while i < self.graph.edges.len()
            invariant
                self@.wf(),
                i <= self.graph.edges.len(),
                forall|j: int|
                    0 <= j < i ==> !((#[trigger] self@.graph.edges[j]).target == node
                        && self@.graph.edges[j].dependency.elides_on_no_rows()
                        && self@.edge_rows(j).len() == 0),
            decreases self.graph.edges.len() - i,
        {
            let edge: &Edge = &self.graph.edges[i];
            assert(edge@ == self@.graph.edges[i as int]);
            let elides = matches!(
                &edge.dependency,
                QueryGraphDependency::ProjectedDataSinkDependency(_, _, None)
            );
            if edge.target == node && elides {
                let rows = self.edge_rows(i);
                if rows.len() == 0 {
                    return true;
                }
            }
            i += 1;
        }
        false
    }

    fn rewrite(&mut self, node: usize) -> (r: Option<QueryGraphBuilderError>)
        requires
            old(self)@.wf(),
            old(self)@.waiting is None,
            node < old(self).states.len(),
        ensures
            final(self)@ == old(self)@.with_node(
                node as int,
                old(self)@.rewritten(node as int, old(self)@.graph.edges.len() as int).0,
            ),
            r.deep_view() == old(self)@.rewritten(
                node as int,
                old(self)@.graph.edges.len() as int,
            ).1,
    {
        let ghost before = self@;
        let mut i: usize = 0;
        assert(before.with_node(node as int, before.graph.nodes[node as int]) =~= before) by {
            assert(before.graph.nodes.update(node as int, before.graph.nodes[node as int])
                =~= before.graph.nodes);
        }
        while i < self.graph.edges.len()
            invariant
                before == old(self)@,
                before.wf(),
                before.waiting is None,
                node < before.states.len(),
                i <= before.graph.edges.len(),
                before.rewritten(node as int, i as int).1 is None,
                self@ == before.with_node(node as int, before.rewritten(node as int, i as int).0),
            decreases self.graph.edges.len() - i,
        {
            assert(self@.wf());
            let target = self.graph.edges[i].target;
            assert(self.graph.edges[i as int]@ == before.graph.edges[i as int]);
            if target == node {
                let rows = self.edge_rows(i);
                assert(rows.deep_view() == before.edge_rows(i as int));
                let ghost carried = rows.deep_view();
                let ghost dependency = before.graph.edges[i as int].dependency;
                let ghost current = self.graph.nodes[node as int]@;
                let ghost nodes = self.graph.nodes.deep_view();
                assert(self@.graph.nodes[node as int] == current);
                assert(self@.graph.nodes == before.graph.nodes.update(
                    node as int,
                    before.rewritten(node as int, i as int).0,
                ));
                assert(current == before.rewritten(node as int, i as int).0);
                let result = match &self.graph.edges[i].dependency {
                    QueryGraphDependency::ExecutionOrder => Ok(()),
                    QueryGraphDependency::ProjectedDataDependency(_, transform, _) => {
                        let transform: Transform = *transform;
                        self.graph.nodes[node].apply_transform(transform, rows)
                    },
                    QueryGraphDependency::ProjectedDataSinkDependency(_, sink, _) => {
                        let sink: RowSink = *sink;
                        self.graph.nodes[node].write_rows(sink, rows)
                    },
                };
                assert(self.graph.nodes.deep_view() =~= nodes.update(
                    node as int,
                    self.graph.nodes[node as int]@,
                ));
                assert(match dependency.rewrite(current, carried) {
                    Ok(rewritten) => result is Ok && self.graph.nodes[node as int]@ == rewritten,
                    Err(error) => result is Err && result->Err_0@ == error
                        && self.graph.nodes[node as int]@ == current,
                });
                match result {
                    Ok(()) => {
                        assert(self@.graph.nodes =~= before.graph.nodes.update(
                            node as int,
                            before.rewritten(node as int, i + 1).0,
                        ));
                    },
                    Err(error) => {
                        proof {
                            before.lemma_rewrite_error_stays(node as int, i + 1);
                            assert(self.graph.nodes.deep_view() =~= nodes);
                        }
                        return Some(error);
                    },
                }
            }
            i += 1;
        }
        None
    }
}

impl ExecutionView {
    /// A violation among the first `upto` edges is the violation among all edges.
    pub proof fn lemma_violation_stays(self, node: int, upto: int)
        requires
            0 <= upto <= self.graph.edges.len(),
            self.first_violation(node, upto) is Some,
        ensures
            self.first_violation(node, self.graph.edges.len() as int) == self.first_violation(
                node,
                upto,
            ),
        decreases self.graph.edges.len() - upto,
    {
        if upto < self.graph.edges.len() {
            self.lemma_violation_stays(node, upto + 1);
        }
    }

    /// Once an edge has failed to rewrite the node, the later edges change nothing.
    pub proof fn lemma_rewrite_error_stays(self, node: int, upto: int)
        requires
            0 <= upto <= self.graph.edges.len(),
            self.rewritten(node, upto).1 is Some,
        ensures
            self.rewritten(node, self.graph.edges.len() as int) == self.rewritten(node, upto),
        decreases self.graph.edges.len() - upto,
    {
        if upto < self.graph.edges.len() {
            self.lemma_rewrite_error_stays(node, upto + 1);
        }
    }
}

impl ExecutionView {
    /// The first ready node from `from` on is ready, and no node between is.
    pub proof fn lemma_first_ready(self, from: int)
        requires
            0 <= from,
            self.states.len() <= usize::MAX,
        ensures
            match self.first_ready(from) {
                Some(node) => from <= node < self.states.len() && self.ready(node as int)
                    && forall|m: int| from <= m < node ==> !self.ready(m),
                None => forall|m: int| from <= m ==> !self.ready(m),
            },
        decreases self.states.len() - from,
    {
        if from < self.states.len() && !self.ready(from) {
            self.lemma_first_ready(from + 1);
        }
    }
}

impl Execution {
    fn outcome(&self) -> (r: Result<Option<QueryResult>, ExecutionError>)
        requires
            self@.wf(),
        ensures
            match self@.outcome() {
                Ok(output) => r is Ok && r->Ok_0.deep_view() == output,
                Err(error) => r is Err && r->Err_0@ == error,
            },
    {
        match self.graph.result_node {
            Some(node) => {
                if matches!(self.states[node], NodeState::Skipped) {
                    Err(
                        ExecutionError::Expectation(
                            UserFacingError::MissingRecord {
                                operation: self.missing_result.operation,
                            },
                        ),
                    )
                } else {
                    let output = self.outputs[node].clone();
                    assert(output.deep_view() == self.outputs[node as int].deep_view());
                    Ok(output)
                }
            },
            None => Ok(None),
        }
    }

    fn fail(&mut self, node: usize, error: ExecutionError) -> (r: Step)
        requires
            old(self)@.wf(),
            old(self)@.waiting is None,
            old(self)@.ready(node as int),
        ensures
            final(self)@ == old(self)@.with_state(node as int, NodeState::Failed).failed(error@),
            final(self)@.wf(),
            r@ == StepView::Finished(Err(error@)),
    {
        let report = error.clone();
        self.states.set(node, NodeState::Failed);
        self.failure = Some(error);
        Step::Finished(Err(report))
    }

    fn skip(&mut self, node: usize) -> (r: Step)
        requires
            old(self)@.wf(),
            old(self)@.waiting is None,
            old(self)@.ready(node as int),
        ensures
            final(self)@ == old(self)@.with_state(node as int, NodeState::Skipped),
            final(self)@.wf(),
            r@ == StepView::Continue,
    {
        self.states.set(node, NodeState::Skipped);
        assert(forall|i: int|
            0 <= i < self@.states.len() && i != node ==> self@.finished(i) == old(self)@.finished(
                i,
            ));
        Step::Continue
    }

    /// Takes the execution one step further and says what the caller is to do next.
    pub fn step(&mut self) -> (r: Step)
        requires
            old(self)@.wf(),
        ensures
            final(self)@ == old(self)@.step().0,
            r@ == old(self)@.step().1,
            final(self)@.wf(),
    {
        match &self.failure {
            Some(error) => {
                return Step::Finished(Err(error.clone()));
            },
            None => {},
        }
        match self.waiting {
            Some(node) => {
                return Step::Execute(NodeRef { node_ix: node });
            },
            None => {},
        }
        proof {
            self@.lemma_first_ready(0);
        }
        let node = match self.find_ready() {
            Some(node) => node,
            None => {
                if self.any_pending() {
                    self.failure = Some(ExecutionError::CyclicDependency);
                    return Step::Finished(Err(ExecutionError::CyclicDependency));
                } else {
                    return Step::Finished(self.outcome());
                }
            },
        };
        if self.source_skipped(node) {
            return self.skip(node);
        }
        match self.first_violation(node) {
            Some(error) => {
                assert(old(self)@.with_node(node as int, old(self)@.graph.nodes[node as int])
                    =~= old(self)@) by {
                    assert(old(self)@.graph.nodes.update(
                        node as int,
                        old(self)@.graph.nodes[node as int],
                    ) =~= old(self)@.graph.nodes);
                }
                return self.fail(node, ExecutionError::Expectation(error));
            },
            None => {},
        }
        if self.starved(node) {
            return self.skip(node);
        }
        match self.rewrite(node) {
            Some(error) => {
                return self.fail(node, ExecutionError::Builder(error));
            },
            None => {},
        }
        let ghost rewritten = old(self)@.rewritten(
            node as int,
            old(self)@.graph.edges.len() as int,
        ).0;
        assert(old(self)@.prepare(node as int) == Prepared::Run(rewritten));
        assert(node < self.graph.nodes.len());
        assert(self.graph.nodes[node as int]@ == self@.graph.nodes[node as int]);
        if matches!(self.graph.nodes[node], Node::Query(_)) {
            self.waiting = Some(node);
            Step::Execute(NodeRef { node_ix: node })
        } else {
            self.states.set(node, NodeState::Executed);
            let rows: Vec<SelectionResult> = Vec::new();
            assert(rows.deep_view() =~= Seq::empty());
            let ghost outputs = self.outputs.deep_view();
            self.outputs.set(node, Some(QueryResult::Rows(rows)));
            assert(self.outputs.deep_view() =~= outputs.update(
                node as int,
                Some(QueryResultView::Rows(Seq::empty())),
            ));
            assert(forall|i: int|
                0 <= i < self@.states.len() && i != node ==> self@.finished(i) == old(
                    self,
                )@.finished(i));
            Step::Continue
        }
    }

    /// Takes in what the connector answered for the node that waits for it.
    ///
    /// Returns whether a node waited; if none did, nothing changes.
    pub fn complete(&mut self, answer: Result<QueryResult, ConnectorError>) -> (r: bool)
        requires
            old(self)@.wf(),
        ensures
            final(self)@ == old(self)@.complete(
                match answer {
                    Ok(result) => Ok(result@),
                    Err(error) => Err(error.message@),
                },
            ),
            r == old(self)@.waiting is Some,
            final(self)@.wf(),
    {
        match self.waiting {
            Some(node) => {
                self.waiting = None;
                match answer {
                    Ok(result) => {
                        self.states.set(node, NodeState::Executed);
                        let ghost outputs = self.outputs.deep_view();
                        self.outputs.set(node, Some(result));
                        assert(self.outputs.deep_view() =~= outputs.update(
                            node as int,
                            Some(result@),
                        ));
                        assert(forall|i: int|
                            0 <= i < self@.states.len() && i != node ==> self@.finished(i) == old(
                                self,
                            )@.finished(i));
                    },
                    Err(error) => {
                        self.states.set(node, NodeState::Failed);
                        self.failure = Some(ExecutionError::Connector(error));
                    },
                }
                true
            },
            None => false,
        }
    }

    /// Ends the execution at the caller's wish: from then on it reports that it was cancelled,
    /// unless it had failed before.
    pub fn cancel(&mut self)
        requires
            old(self)@.wf(),
        ensures
            final(self)@ == old(self)@.cancel(),
            final(self)@.wf(),
    {
        if self.failure.is_none() {
            self.failure = Some(ExecutionError::Cancelled);
            self.waiting = None;
        }
    }
}

/// Reducing a row that is already reduced to the same fields changes nothing.
pub proof fn lemma_project_row_idempotent(row: Seq<FieldValueView>, selection: Seq<Seq<char>>)
    ensures
        project_row(project_row(row, selection), selection) == project_row(row, selection),
    decreases row.len(),
{
    if row.len() > 0 {
        let before = project_row(row.drop_last(), selection);
        lemma_project_row_idempotent(row.drop_last(), selection);
        if selection.contains(row.last().field) {
            assert(before.push(row.last()).drop_last() =~= before);
        }
    }
}

/// Reading the same rows again, and reducing them to the same fields again, gives the same:
/// what an edge carries depends on nothing but the rows and the selection, and rows that were
/// reduced before stay as they are.
pub proof fn lemma_project_idempotent(rows: Seq<Seq<FieldValueView>>, selection: Seq<Seq<char>>)
    ensures
        project(project(rows, selection), selection) == project(rows, selection),
{
    assert forall|i: int| 0 <= i < rows.len() implies project(
        project(rows, selection),
        selection,
    )[i] == project(rows, selection)[i] by {
        lemma_project_row_idempotent(rows[i], selection);
    }
    assert(project(project(rows, selection), selection) =~= project(rows, selection));
}

/// What an edge carries depends on the answer it is taken from and on the selection alone:
/// two executions in which the sources of two edges with one selection got the same answer
/// carry the same rows along these edges, and rows that are carried on from there under the
/// same selection stay as they are.
pub proof fn lemma_same_answer_same_rows(
    first: ExecutionView,
    second: ExecutionView,
    edge: int,
    other: int,
)
    requires
        0 <= edge < first.graph.edges.len(),
        0 <= other < second.graph.edges.len(),
        first.graph.edges[edge].dependency.selection()
            == second.graph.edges[other].dependency.selection(),
        first.outputs[first.graph.edges[edge].source as int]
            == second.outputs[second.graph.edges[other].source as int],
    ensures
        first.edge_rows(edge) == second.edge_rows(other),
        first.graph.edges[edge].dependency.selection() matches Some(selection) ==> project(
            first.edge_rows(edge),
            selection,
        ) == first.edge_rows(edge),
{
    match (
        first.graph.edges[edge].dependency.selection(),
        first.outputs[first.graph.edges[edge].source as int],
    ) {
        (Some(selection), Some(output)) => {
            lemma_project_idempotent(output.rows(), selection);
        },
        (Some(selection), None) => {
            assert(project(Seq::empty(), selection) =~= Seq::<Seq<FieldValueView>>::empty());
        },
        _ => {},
    }
}

impl ExecutionView {
    /// The edges among the first `upto` that lead elsewhere neither violate an expectation of
    /// the node nor rewrite it.
    pub proof fn lemma_edges_elsewhere(self, node: int, upto: int)
        requires
            0 <= upto <= self.graph.edges.len(),
            forall|i: int| 0 <= i < upto ==> (#[trigger] self.graph.edges[i]).target != node,
        ensures
            self.first_violation(node, upto) is None,
            self.rewritten(node, upto) == (self.graph.nodes[node], None::<QueryGraphBuilderErrorView>),
        decreases upto,
    {
        if upto > 0 {
            self.lemma_edges_elsewhere(node, upto - 1);
        }
    }

    /// A step leaves the edges and the number of nodes as they are, and with them whether the
    /// graph has cycles.
    pub proof fn lemma_step_keeps_shape(self)
        requires
            self.wf(),
        ensures
            self.step().0.graph.edges == self.graph.edges,
            self.step().0.graph.nodes.len() == self.graph.nodes.len(),
            self.step().0.graph.result_node == self.graph.result_node,
            self.graph.acyclic() ==> self.step().0.graph.acyclic(),
            forall|i: int|
                0 <= i < self.graph.nodes.len() && self.first_ready(0) != Some(i as usize)
                    ==> self.step().0.graph.nodes[i] == self.graph.nodes[i],
    {
        self.lemma_first_ready(0);
        if self.graph.acyclic() {
            let ranks = choose|ranks: Seq<int>| self.graph.ranked_by(ranks);
            assert(self.step().0.graph.ranked_by(ranks));
        }
    }

    /// The state of a node that is no longer pending is final: neither a step nor an answer of
    /// the connector nor a cancellation changes it.
    pub proof fn lemma_states_are_final(self, answer: Result<QueryResultView, Seq<char>>, node: int)
        requires
            self.wf(),
            0 <= node < self.states.len(),
            !(self.states[node] is Pending),
        ensures
            self.step().0.states[node] == self.states[node],
            self.complete(answer).states[node] == self.states[node],
            self.cancel().states[node] == self.states[node],
    {
        self.lemma_first_ready(0);
    }

    /// An execution that ends with a result has dealt with every node: each is done or left
    /// out, so every operation that was not left out has run exactly once.
    pub proof fn lemma_result_after_all_nodes(self)
        requires
            self.wf(),
            self.step().1 matches StepView::Finished(Ok(_)),
        ensures
            forall|i: int| 0 <= i < self.states.len() ==> self.finished(i),
    {
        self.lemma_first_ready(0);
        assert forall|i: int| 0 <= i < self.states.len() implies self.finished(i) by {
            if self.states[i] is Pending {
                assert(self.any_pending());
            }
        }
    }

    /// Among the pending nodes from `from` on there is one of least rank.
    proof fn lemma_least_pending(self, ranks: Seq<int>, from: int) -> (least: int)
        requires
            ranks.len() == self.states.len(),
            0 <= from < self.states.len(),
            exists|i: int| from <= i < self.states.len() && (#[trigger] self.states[i]) is Pending,
        ensures
            from <= least < self.states.len(),
            self.states[least] is Pending,
            forall|i: int|
                from <= i < self.states.len() && (#[trigger] self.states[i]) is Pending
                    ==> ranks[least] <= ranks[i],
        decreases self.states.len() - from,
    {
        if exists|i: int|
            from + 1 <= i < self.states.len() && (#[trigger] self.states[i]) is Pending {
            let later = self.lemma_least_pending(ranks, from + 1);
            if self.states[from] is Pending && ranks[from] < ranks[later] {
                from
            } else {
                later
            }
        } else {
            from
        }
    }

    /// In a graph without cycles, an execution that has not failed and waits for nothing finds
    /// a ready node as long as a node is pending: it never ends for want of one.
    pub proof fn lemma_acyclic_progress(self)
        requires
            self.wf(),
            self.graph.acyclic(),
            self.failure is None,
            self.any_pending(),
        ensures
            self.first_ready(0) is Some,
            self.step().1 != StepView::Finished(
                Err::<Option<QueryResultView>, ExecutionErrorView>(
                    ExecutionErrorView::CyclicDependency,
                ),
            ),
    {
        let ranks = choose|ranks: Seq<int>| self.graph.ranked_by(ranks);
        let least = self.lemma_least_pending(ranks, 0);
        assert(self.sources_finished(least)) by {
            assert forall|i: int|
                0 <= i < self.graph.edges.len() && (#[trigger] self.graph.edges[i]).target
                    == least implies self.finished(self.graph.edges[i].source as int) by {
                let source = self.graph.edges[i].source as int;
                assert(ranks[source] < ranks[least]);
                if self.states[source] is Pending {
                    assert(ranks[least] <= ranks[source]);
                }
            }
        }
        assert(self.ready(least));
        self.lemma_first_ready(0);
    }
}

/// The number of operations among the first `upto` nodes that are done.
pub open spec fn executed_among(nodes: Seq<NodeView>, states: Seq<NodeState>, upto: int) -> nat
    decreases upto,
{
    if upto <= 0 {
        0
    } else {
        executed_among(nodes, states, upto - 1) + if states[upto - 1] is Executed && nodes[upto
            - 1].is_query() {
            1nat
        } else {
            0nat
        }
    }
}

/// Where all of the first `upto` nodes are done, the operations among them are all done.
pub proof fn lemma_executed_among_all(nodes: Seq<NodeView>, states: Seq<NodeState>, upto: int)
    requires
        0 <= upto <= nodes.len(),
        nodes.len() == states.len(),
        forall|i: int| 0 <= i < upto ==> states[i] is Executed,
    ensures
        executed_among(nodes, states, upto) == count_queries(nodes.take(upto)),
    decreases upto,
{
    if upto > 0 {
        lemma_executed_among_all(nodes, states, upto - 1);
        assert(nodes.take(upto).drop_last() =~= nodes.take(upto - 1));
    }
}

impl QueryGraphDependencyView {
    /// Rewriting a node leaves its kind as it is: an operation stays one.
    pub proof fn lemma_rewrite_keeps_kind(self, node: NodeView, rows: Seq<Seq<FieldValueView>>)
        ensures
            self.rewrite(node, rows) matches Ok(rewritten) ==> rewritten.is_query()
                == node.is_query(),
    {
    }
}

impl ExecutionView {
    /// The number of operations that were run against the connector and are done.
    pub open spec fn executed_operations(self) -> nat {
        executed_among(self.graph.nodes, self.states, self.states.len() as int)
    }

    /// Whether the execution leaves no node out: no node was left out so far, and no edge can
    /// leave its target without work.
    pub open spec fn leaves_nothing_out(self) -> bool {
        &&& self.wf()
        &&& self.graph.expects_rows()
        &&& forall|i: int| 0 <= i < self.states.len() ==> !((#[trigger] self.states[i]) is Skipped)
    }

    /// As the edges rewrite a node, its kind stays as it is.
    pub proof fn lemma_rewritten_keeps_kind(self, node: int, upto: int)
        requires
            0 <= upto <= self.graph.edges.len(),
        ensures
            self.rewritten(node, upto).0.is_query() == self.graph.nodes[node].is_query(),
        decreases upto,
    {
        if upto > 0 {
            self.lemma_rewritten_keeps_kind(node, upto - 1);
            let before = self.rewritten(node, upto - 1);
            self.graph.edges[upto - 1].dependency.lemma_rewrite_keeps_kind(
                before.0,
                self.edge_rows(upto - 1),
            );
        }
    }

    /// An execution before its first step leaves nothing out, if no edge of its graph can
    /// leave its target without work.
    pub proof fn lemma_start_leaves_nothing_out(graph: QueryGraphView, missing_result: MissingRecord)
        requires
            graph.wf(),
            graph.expects_rows(),
        ensures
            ExecutionView::start(graph, missing_result).leaves_nothing_out(),
    {
    }

    /// A step of an execution that leaves nothing out leaves nothing out, and leaves the number
    /// of operations in the graph as it is.
    pub proof fn lemma_step_leaves_nothing_out(self)
        requires
            self.leaves_nothing_out(),
        ensures
            self.step().0.leaves_nothing_out(),
            self.step().0.graph.query_count() == self.graph.query_count(),
    {
        self.lemma_first_ready(0);
        self.lemma_step_keeps_shape();
        if self.failure is None && self.waiting is None {
            match self.first_ready(0) {
                Some(node) => {
                    let n = node as int;
                    self.lemma_rewritten_keeps_kind(n, self.graph.edges.len() as int);
                    assert(!self.source_skipped(n));
                    assert(!self.starved(n));
                    let rewritten = self.rewritten(n, self.graph.edges.len() as int).0;
                    lemma_count_update(self.graph.nodes, n, rewritten);
                    lemma_count_update(self.graph.nodes, n, self.graph.nodes[n]);
                    assert(self.graph.nodes.update(n, self.graph.nodes[n]) =~= self.graph.nodes);
                },
                None => {},
            }
        }
    }

    /// The answer of the connector leaves nothing out either.
    pub proof fn lemma_complete_leaves_nothing_out(self, answer: Result<QueryResultView, Seq<char>>)
        requires
            self.leaves_nothing_out(),
        ensures
            self.complete(answer).leaves_nothing_out(),
            self.complete(answer).graph == self.graph,
    {
        if self.waiting is Some {
            let node = self.waiting->Some_0 as int;
            let after = self.complete(answer);
            assert(forall|i: int|
                0 <= i < self.states.len() && i != node ==> after.finished(i) == self.finished(i));
        }
    }

    /// An execution that leaves nothing out and ends with a result has run every operation of
    /// its graph against the connector.
    pub proof fn lemma_all_operations_run(self)
        requires
            self.leaves_nothing_out(),
            self.step().1 matches StepView::Finished(Ok(_)),
        ensures
            self.executed_operations() == self.graph.query_count(),
    {
        self.lemma_result_after_all_nodes();
        lemma_executed_among_all(self.graph.nodes, self.states, self.states.len() as int);
        assert(self.graph.nodes.take(self.states.len() as int) =~= self.graph.nodes);
    }
}

} // verus!
