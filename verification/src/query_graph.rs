//! The query graph: operations as nodes, and between them the data dependencies along which
//! the rows that one operation produces reach the operations that need them.

use crate::error::{
    DataDependencyError, QueryGraphBuilderError, QueryGraphBuilderErrorView, UserFacingError,
};
use crate::filter::{selection_filter, Filter, RecordFilter, RecordFilterView};
use crate::query_ast::{
    ConnectRecordsView, Query, QueryView, ReadQuery, ReadQueryView, RecordQueryView, UpdateManyRecordsView,
    UpdateRecord, WriteQuery, WriteQueryView,
};
use crate::schema::FieldSelection;
use crate::value::{FieldValueView, SelectionResult};
use vstd::prelude::*;
use vstd::string::*;

verus! {

/// A stable handle to a node of a graph: its position among the graph's nodes.
#[derive(Clone, Copy, Debug, PartialEq, Eq, Structural)]
pub struct NodeRef {
    pub node_ix: usize,
}

/// A unit of work in the graph.
#[derive(Debug, PartialEq, Eq)]
pub enum Node {
    /// An operation for the connector.
    Query(Query),
    /// A check point that does no work of its own.
    Empty,
}

/// The mathematical model of a [`Node`].
pub enum NodeView {
    Query(QueryView),
    Empty,
}

impl View for Node {
    type V = NodeView;

    open spec fn view(&self) -> NodeView {
        match self {
            Node::Query(q) => NodeView::Query(q@),
            Node::Empty => NodeView::Empty,
        }
    }
}

impl DeepView for Node {
    type V = NodeView;

    open spec fn deep_view(&self) -> NodeView {
        self@
    }
}

impl NodeView {
    /// Whether executing the node sends an operation to the connector.
    pub open spec fn is_query(self) -> bool {
        self is Query
    }

    /// Whether the node is a read of at most one record.
    pub open spec fn is_record_query(self) -> bool {
        self matches NodeView::Query(QueryView::Read(ReadQueryView::RecordQuery(_)))
    }

    /// Whether the node is an update of one record.
    pub open spec fn is_update_record(self) -> bool {
        self matches NodeView::Query(QueryView::Write(WriteQueryView::UpdateRecord(_)))
    }

    /// Whether the node is an update of many records.
    pub open spec fn is_update_many(self) -> bool {
        self matches NodeView::Query(QueryView::Write(WriteQueryView::UpdateManyRecords(_)))
    }

    /// Whether the node connects records.
    pub open spec fn is_connect(self) -> bool {
        self matches NodeView::Query(QueryView::Write(WriteQueryView::ConnectRecords(_)))
    }
}

/// How the rows of a source rewrite the node that depends on them.
#[derive(Clone, Copy, Debug, PartialEq, Eq, Structural)]
pub enum Transform {
    /// The node stays as it is.
    Identity,
    /// An update of many records is narrowed to exactly the rows given.
    UpdateManyFilter,
    /// A connect takes the last row as its parent; no row at all is an error.
    ConnectParent,
    /// A connect takes the rows as its children.
    ConnectChildren,
}

/// The argument slot of a node into which the rows of a source are written.
#[derive(Clone, Copy, Debug, PartialEq, Eq, Structural)]
pub enum RowSink {
    /// All rows become the selectors of an update of one record.
    AllUpdateRecordSelectors,
    /// The one row becomes the filter of a read of one record.
    ExactlyOneRecordQueryFilter,
}

/// The message of the error for a connect whose parent produced no row.
pub open spec fn missing_parent_message() -> Seq<char> {
    "Required exactly one parent ID to be present for connect query, found 0."@
}

/// The message of the error for rows written into a node that has no slot for them.
pub open spec fn unfit_sink_message() -> Seq<char> {
    "The rows cannot be written into a node of this kind."@
}

/// The message of the error for a slot that takes one row and was given another number.
pub open spec fn not_one_row_message() -> Seq<char> {
    "Required exactly one row, found another number."@
}

impl Transform {
    /// The node as rewritten by the rows of the source, or the error that the rows give rise to.
    /// A node of a kind that the transform does not address stays as it is.
    pub open spec fn apply(self, node: NodeView, rows: Seq<Seq<FieldValueView>>) -> Result<
        NodeView,
        QueryGraphBuilderErrorView,
    > {
        match self {
            Transform::Identity => Ok(node),
            Transform::UpdateManyFilter => match node {
                NodeView::Query(QueryView::Write(WriteQueryView::UpdateManyRecords(update))) => Ok(
                    NodeView::Query(
                        QueryView::Write(
                            WriteQueryView::UpdateManyRecords(
                                UpdateManyRecordsView {
                                    record_filter: RecordFilterView {
                                        filter: crate::filter::empty_filter(),
                                        selectors: Some(rows),
                                    },
                                    ..update
                                },
                            ),
                        ),
                    ),
                ),
                _ => Ok(node),
            },
            Transform::ConnectParent => if rows.len() == 0 {
                Err(QueryGraphBuilderErrorView::AssertionError(missing_parent_message()))
            } else {
                match node {
                    NodeView::Query(QueryView::Write(WriteQueryView::ConnectRecords(connect))) =>
                        Ok(
                        NodeView::Query(
                            QueryView::Write(
                                WriteQueryView::ConnectRecords(
                                    ConnectRecordsView { parent_id: Some(rows.last()), ..connect },
                                ),
                            ),
                        ),
                    ),
                    _ => Ok(node),
                }
            },
            Transform::ConnectChildren => match node {
                NodeView::Query(QueryView::Write(WriteQueryView::ConnectRecords(connect))) => Ok(
                    NodeView::Query(
                        QueryView::Write(
                            WriteQueryView::ConnectRecords(
                                ConnectRecordsView { child_ids: rows, ..connect },
                            ),
                        ),
                    ),
                ),
                _ => Ok(node),
            },
        }
    }
}

impl RowSink {
    /// The node with the rows written into the slot, or the error if the node has no such slot
    /// or the slot does not take that many rows.
    pub open spec fn write(self, node: NodeView, rows: Seq<Seq<FieldValueView>>) -> Result<
        NodeView,
        QueryGraphBuilderErrorView,
    > {
        match self {
            RowSink::AllUpdateRecordSelectors => match node {
                NodeView::Query(QueryView::Write(WriteQueryView::UpdateRecord(update))) => Ok(
                    NodeView::Query(
                        QueryView::Write(
                            WriteQueryView::UpdateRecord(
                                update.with_record_filter(
                                    RecordFilterView {
                                        filter: update.record_filter().filter,
                                        selectors: Some(rows),
                                    },
                                ),
                            ),
                        ),
                    ),
                ),
                _ => Err(QueryGraphBuilderErrorView::AssertionError(unfit_sink_message())),
            },
            RowSink::ExactlyOneRecordQueryFilter => match node {
                NodeView::Query(QueryView::Read(ReadQueryView::RecordQuery(read))) => if rows.len()
                    == 1 {
                    Ok(
                        NodeView::Query(
                            QueryView::Read(
                                ReadQueryView::RecordQuery(
                                    RecordQueryView {
                                        filter: Some(selection_filter(rows[0])),
                                        ..read
                                    },
                                ),
                            ),
                        ),
                    )
                } else {
                    Err(QueryGraphBuilderErrorView::AssertionError(not_one_row_message()))
                },
                _ => Err(QueryGraphBuilderErrorView::AssertionError(unfit_sink_message())),
            },
        }
    }
}

impl Node {
    /// Rewrites the node by the rows of a source.
    pub fn apply_transform(&mut self, transform: Transform, rows: Vec<SelectionResult>) -> (r:
        Result<(), QueryGraphBuilderError>)
        ensures
            match transform.apply(old(self)@, rows.deep_view()) {
                Ok(node) => r is Ok && final(self)@ == node,
                Err(error) => r is Err && r->Err_0@ == error && final(self)@ == old(self)@,
            },
    {
        let mut rows = rows;
        match transform {
            Transform::Identity => Ok(()),
            Transform::UpdateManyFilter => {
                match self {
                    Node::Query(Query::Write(WriteQuery::UpdateManyRecords(update))) => {
                        update.record_filter = RecordFilter::from_selectors(rows);
                    },
                    _ => {},
                }
                Ok(())
            },
            Transform::ConnectParent => {
                if rows.len() == 0 {
                    return Err(
                        QueryGraphBuilderError::AssertionError(
                            String::from_str(
                                "Required exactly one parent ID to be present for connect query, found 0.",
                            ),
                        ),
                    );
                }
                match self {
                    Node::Query(Query::Write(WriteQuery::ConnectRecords(connect))) => {
                        let ghost before = rows.deep_view();
                        let parent = rows.pop();
                        assert(parent.unwrap()@ == before.last());
                        connect.parent_id = parent;
                    },
                    _ => {},
                }
                Ok(())
            },
            Transform::ConnectChildren => {
                match self {
                    Node::Query(Query::Write(WriteQuery::ConnectRecords(connect))) => {
                        connect.child_ids = rows;
                    },
                    _ => {},
                }
                Ok(())
            },
        }
    }

    /// Writes the rows of a source into an argument slot of the node.
    pub fn write_rows(&mut self, sink: RowSink, rows: Vec<SelectionResult>) -> (r: Result<
        (),
        QueryGraphBuilderError,
    >)
        ensures
            match sink.write(old(self)@, rows.deep_view()) {
                Ok(node) => r is Ok && final(self)@ == node,
                Err(error) => r is Err && r->Err_0@ == error && final(self)@ == old(self)@,
            },
    {
        match sink {
            RowSink::AllUpdateRecordSelectors => match self {
                Node::Query(Query::Write(WriteQuery::UpdateRecord(update))) => {
                    match update {
                        UpdateRecord::WithSelection(u) => {
                            u.record_filter.selectors = Some(rows);
                        },
                        UpdateRecord::WithoutSelection(u) => {
                            u.record_filter.selectors = Some(rows);
                        },
                    }
                    Ok(())
                },
                _ => Err(
                    QueryGraphBuilderError::AssertionError(
                        String::from_str("The rows cannot be written into a node of this kind."),
                    ),
                ),
            },
            RowSink::ExactlyOneRecordQueryFilter => match self {
                Node::Query(Query::Read(ReadQuery::RecordQuery(read))) => {
                    if rows.len() == 1 {
                        read.filter = Some(Filter::from_selection(&rows[0]));
                        Ok(())
                    } else {
                        Err(
                            QueryGraphBuilderError::AssertionError(
                                String::from_str("Required exactly one row, found another number."),
                            ),
                        )
                    }
                },
                _ => Err(
                    QueryGraphBuilderError::AssertionError(
                        String::from_str("The rows cannot be written into a node of this kind."),
                    ),
                ),
            },
        }
    }
}

/// How many rows a source must produce.
#[derive(Clone, Copy, Debug, PartialEq, Eq, Structural)]
pub enum RowExpectation {
    NonEmpty,
    Exact(usize),
}

/// An assertion on the number of rows that the source of an edge produces, and the error that
/// is raised if it does not hold.
#[derive(Clone, Copy, Debug, PartialEq, Eq, Structural)]
pub struct DataExpectation {
    pub rows: RowExpectation,
    pub error: DataDependencyError,
}

impl DataExpectation {
    /// Expects at least one row.
    pub fn non_empty_rows(error: DataDependencyError) -> (r: DataExpectation)
        ensures
            r == (DataExpectation { rows: RowExpectation::NonEmpty, error }),
    {
        DataExpectation { rows: RowExpectation::NonEmpty, error }
    }

    /// Expects exactly `count` rows.
    pub fn exact_row_count(count: usize, error: DataDependencyError) -> (r: DataExpectation)
        ensures
            r == (DataExpectation { rows: RowExpectation::Exact(count), error }),
    {
        DataExpectation { rows: RowExpectation::Exact(count), error }
    }

    /// Whether `actual` rows meet the expectation.
    pub open spec fn holds(self, actual: usize) -> bool {
        match self.rows {
            RowExpectation::NonEmpty => actual > 0,
            RowExpectation::Exact(count) => actual == count,
        }
    }

    /// Holds the expectation against the number of rows that the source produced.
    pub fn check(&self, actual: usize) -> (r: Result<(), UserFacingError>)
        ensures
            self.holds(actual) ==> r == Ok::<(), UserFacingError>(()),
            !self.holds(actual) ==> r == Err::<(), UserFacingError>(self.error.spec_report(actual)),
    {
        let met = match self.rows {
            RowExpectation::NonEmpty => actual > 0,
            RowExpectation::Exact(count) => actual == count,
        };
        if met {
            Ok(())
        } else {
            Err(self.error.report(actual))
        }
    }
}

/// What an edge's target needs of its source.
#[derive(Debug, PartialEq, Eq)]
pub enum QueryGraphDependency {
    /// Only that the source has run.
    ExecutionOrder,
    /// The selected fields of the source's rows, by which the target is rewritten.
    ProjectedDataDependency(FieldSelection, Transform, Option<DataExpectation>),
    /// The selected fields of the source's rows, written into an argument slot of the target.
    ProjectedDataSinkDependency(FieldSelection, RowSink, Option<DataExpectation>),
}

/// The mathematical model of a [`QueryGraphDependency`].
pub enum QueryGraphDependencyView {
    ExecutionOrder,
    ProjectedDataDependency(Seq<Seq<char>>, Transform, Option<DataExpectation>),
    ProjectedDataSinkDependency(Seq<Seq<char>>, RowSink, Option<DataExpectation>),
}

impl View for QueryGraphDependency {
    type V = QueryGraphDependencyView;

    open spec fn view(&self) -> QueryGraphDependencyView {
        match self {
            QueryGraphDependency::ExecutionOrder => QueryGraphDependencyView::ExecutionOrder,
            QueryGraphDependency::ProjectedDataDependency(selection, transform, expectation) =>
                QueryGraphDependencyView::ProjectedDataDependency(
                    selection@,
                    *transform,
                    *expectation,
                ),
            QueryGraphDependency::ProjectedDataSinkDependency(selection, sink, expectation) =>
                QueryGraphDependencyView::ProjectedDataSinkDependency(
                    selection@,
                    *sink,
                    *expectation,
                ),
        }
    }
}

impl QueryGraphDependencyView {
    /// The expectation that the dependency carries, if any.
    pub open spec fn expectation(self) -> Option<DataExpectation> {
        match self {
            QueryGraphDependencyView::ExecutionOrder => None,
            QueryGraphDependencyView::ProjectedDataDependency(_, _, e) => e,
            QueryGraphDependencyView::ProjectedDataSinkDependency(_, _, e) => e,
        }
    }

    /// Whether the dependency leaves its target without work when the source produces no row:
    /// it writes rows into a slot of the target and expects nothing of their number.
    pub open spec fn elides_on_no_rows(self) -> bool {
        self matches QueryGraphDependencyView::ProjectedDataSinkDependency(_, _, None)
    }

    /// Whether the dependency can rewrite a node of this kind.
    pub open spec fn fits(self, node: NodeView) -> bool {
        match self {
            QueryGraphDependencyView::ExecutionOrder => true,
            QueryGraphDependencyView::ProjectedDataDependency(_, transform, _) => match transform {
                Transform::Identity => true,
                Transform::UpdateManyFilter => node.is_update_many(),
                Transform::ConnectParent => node.is_connect(),
                Transform::ConnectChildren => node.is_connect(),
            },
            QueryGraphDependencyView::ProjectedDataSinkDependency(_, sink, _) => match sink {
                RowSink::AllUpdateRecordSelectors => node.is_update_record(),
                RowSink::ExactlyOneRecordQueryFilter => node.is_record_query(),
            },
        }
    }
}

/// A dependency of one node on another.
#[derive(Debug, PartialEq, Eq)]
pub struct Edge {
    pub source: usize,
    pub target: usize,
    pub dependency: QueryGraphDependency,
}

/// The mathematical model of an [`Edge`].
pub struct EdgeView {
    pub source: usize,
    pub target: usize,
    pub dependency: QueryGraphDependencyView,
}

impl View for Edge {
    type V = EdgeView;

    open spec fn view(&self) -> EdgeView {
        EdgeView { source: self.source, target: self.target, dependency: self.dependency@ }
    }
}

impl DeepView for Edge {
    type V = EdgeView;

    open spec fn deep_view(&self) -> EdgeView {
        self@
    }
}

/// A graph of operations and the dependencies between them.
#[derive(Debug, PartialEq, Eq)]
pub struct QueryGraph {
    pub nodes: Vec<Node>,
    pub edges: Vec<Edge>,
    pub result_node: Option<usize>,
    pub transactional: bool,
}

/// The mathematical model of a [`QueryGraph`].
pub struct QueryGraphView {
    pub nodes: Seq<NodeView>,
    pub edges: Seq<EdgeView>,
    pub result_node: Option<usize>,
    pub transactional: bool,
}

impl View for QueryGraph {
    type V = QueryGraphView;

    open spec fn view(&self) -> QueryGraphView {
        QueryGraphView {
            nodes: self.nodes.deep_view(),
            edges: self.edges.deep_view(),
            result_node: self.result_node,
            transactional: self.transactional,
        }
    }
}

impl QueryGraphView {
    /// The graph without nodes.
    pub open spec fn empty() -> QueryGraphView {
        QueryGraphView {
            nodes: Seq::empty(),
            edges: Seq::empty(),
            result_node: None,
            transactional: false,
        }
    }

    /// The nodes can be counted in a machine word, every edge joins two nodes of the graph, and
    /// the result node is one of its nodes.
    pub open spec fn wf(self) -> bool {
        &&& self.nodes.len() <= usize::MAX
        &&& forall|i: int|
            0 <= i < self.edges.len() ==> (#[trigger] self.edges[i]).source < self.nodes.len()
                && self.edges[i].target < self.nodes.len()
        &&& self.result_node matches Some(r) ==> r < self.nodes.len()
    }

    /// Whether the handle refers to a node of the graph.
    pub open spec fn contains(self, node: NodeRef) -> bool {
        node.node_ix < self.nodes.len()
    }

    /// Whether `ranks` gives every node a rank such that every edge leads to a higher rank.
    pub open spec fn ranked_by(self, ranks: Seq<int>) -> bool {
        &&& ranks.len() == self.nodes.len()
        &&& forall|i: int|
            0 <= i < self.edges.len() ==> ranks[(#[trigger] self.edges[i]).source as int]
                < ranks[self.edges[i].target as int]
    }

    /// Whether the edges form a directed acyclic graph.
    pub open spec fn acyclic(self) -> bool {
        exists|ranks: Seq<int>| self.ranked_by(ranks)
    }

    /// The graph with one more node.
    pub open spec fn with_node(self, node: NodeView) -> QueryGraphView {
        QueryGraphView { nodes: self.nodes.push(node), ..self }
    }

    /// The graph with one more edge.
    pub open spec fn with_edge(
        self,
        source: NodeRef,
        target: NodeRef,
        dependency: QueryGraphDependencyView,
    ) -> QueryGraphView {
        QueryGraphView {
            edges: self.edges.push(
                EdgeView { source: source.node_ix, target: target.node_ix, dependency },
            ),
            ..self
        }
    }

    /// The graph with `node` as its result node.
    pub open spec fn with_result(self, node: NodeRef) -> QueryGraphView {
        QueryGraphView { result_node: Some(node.node_ix), ..self }
    }

    /// The graph, flagged as transactional.
    pub open spec fn flagged(self) -> QueryGraphView {
        QueryGraphView { transactional: true, ..self }
    }

    /// Whether an edge with this dependency may be added towards `target`: an edge into the
    /// result node must be able to rewrite it.
    pub open spec fn admits_edge(self, target: NodeRef, dependency: QueryGraphDependencyView) -> bool {
        self.result_node == Some(target.node_ix) ==> dependency.fits(self.nodes[target.node_ix as int])
    }

    /// The number of nodes that send an operation to the connector.
    pub open spec fn query_count(self) -> nat {
        count_queries(self.nodes)
    }

    /// Whether every edge that writes rows into a slot of its target expects something of
    /// their number, so that no node is ever left without work.
    pub open spec fn expects_rows(self) -> bool {
        forall|i: int|
            0 <= i < self.edges.len() ==> !(#[trigger] self.edges[i]).dependency.elides_on_no_rows()
    }

    /// Whether the graph is `old` with more nodes behind its nodes and more edges behind its
    /// edges, each new edge leading from an earlier node to a later one that `old` does not
    /// have; the result node and the transactional flag may differ.
    pub open spec fn grown_from(self, old: QueryGraphView) -> bool {
        &&& old.nodes.len() <= self.nodes.len()
        &&& old.edges.len() <= self.edges.len()
        &&& forall|i: int| 0 <= i < old.nodes.len() ==> self.nodes[i] == old.nodes[i]
        &&& forall|i: int| 0 <= i < old.edges.len() ==> self.edges[i] == old.edges[i]
        &&& forall|i: int|
            old.edges.len() <= i < self.edges.len() ==> (#[trigger] self.edges[i]).source
                < self.edges[i].target && old.nodes.len() <= self.edges[i].target
                < self.nodes.len()
    }
}

/// The number of nodes among `nodes` that send an operation to the connector.
pub open spec fn count_queries(nodes: Seq<NodeView>) -> nat
    decreases nodes.len(),
{
    if nodes.len() == 0 {
        0
    } else {
        count_queries(nodes.drop_last()) + if nodes.last().is_query() {
            1nat
        } else {
            0nat
        }
    }
}

/// A node of the same kind in place of another leaves the number of operations as it is.
pub proof fn lemma_count_update(nodes: Seq<NodeView>, place: int, node: NodeView)
    requires
        0 <= place < nodes.len(),
        node.is_query() == nodes[place].is_query(),
    ensures
        count_queries(nodes.update(place, node)) == count_queries(nodes),
    decreases nodes.len(),
{
    let updated = nodes.update(place, node);
    if place == nodes.len() - 1 {
        assert(updated.drop_last() =~= nodes.drop_last());
    } else {
        assert(updated.drop_last() =~= nodes.drop_last().update(place, node));
        lemma_count_update(nodes.drop_last(), place, node);
    }
}

/// One more node is one more operation if it is one, and none if it is not.
pub proof fn lemma_count_push(nodes: Seq<NodeView>, node: NodeView)
    ensures
        count_queries(nodes.push(node)) == count_queries(nodes) + if node.is_query() {
            1nat
        } else {
            0nat
        },
{
    assert(nodes.push(node).drop_last() =~= nodes);
}

/// Flagging a graph as transactional twice is flagging it once.
pub proof fn lemma_flagging_is_idempotent(graph: QueryGraphView)
    ensures
        graph.flagged().flagged() == graph.flagged(),
        graph.flagged().transactional,
{
}

/// There is a number above all of `ranks`.
pub proof fn lemma_ranks_bounded(ranks: Seq<int>) -> (bound: int)
    ensures
        forall|i: int| 0 <= i < ranks.len() ==> ranks[i] < bound,
    decreases ranks.len(),
{
    if ranks.len() == 0 {
        0
    } else {
        let before = lemma_ranks_bounded(ranks.drop_last());
        assert(forall|i: int| 0 <= i < ranks.len() - 1 ==> ranks[i] == ranks.drop_last()[i]);
        if ranks.last() < before {
            before
        } else {
            ranks.last() + 1
        }
    }
}

impl QueryGraphView {
    /// A graph that has grown from a well-formed graph and kept its result node is well-formed,
    /// if its nodes can be counted.
    pub proof fn lemma_grown_wf(self, old: QueryGraphView)
        requires
            old.wf(),
            self.grown_from(old),
            self.nodes.len() <= usize::MAX,
            self.result_node == old.result_node,
        ensures
            self.wf(),
    {
        assert forall|i: int| 0 <= i < self.edges.len() implies (#[trigger] self.edges[i]).source
            < self.nodes.len() && self.edges[i].target < self.nodes.len() by {
            if i < old.edges.len() {
                assert(self.edges[i] == old.edges[i]);
            }
        }
    }

    /// Growing is transitive.
    pub proof fn lemma_grown_transitive(self, middle: QueryGraphView, old: QueryGraphView)
        requires
            self.grown_from(middle),
            middle.grown_from(old),
        ensures
            self.grown_from(old),
    {
        assert forall|i: int| old.edges.len() <= i < self.edges.len() implies (
        #[trigger] self.edges[i]).source < self.edges[i].target && old.nodes.len()
            <= self.edges[i].target < self.nodes.len() by {
            if i < middle.edges.len() {
                assert(self.edges[i] == middle.edges[i]);
            }
        }
    }

    /// A well-formed graph that has grown from a well-formed graph without cycles has none.
    pub proof fn lemma_grown_acyclic(self, old: QueryGraphView)
        requires
            old.wf(),
            old.acyclic(),
            self.grown_from(old),
        ensures
            self.acyclic(),
    {
        let ranks = choose|ranks: Seq<int>| old.ranked_by(ranks);
        let bound = lemma_ranks_bounded(ranks);
        let grown = Seq::new(
            self.nodes.len(),
            |i: int|
                if i < old.nodes.len() {
                    ranks[i]
                } else {
                    bound + i
                },
        );
        assert forall|i: int| 0 <= i < self.edges.len() implies grown[(
        #[trigger] self.edges[i]).source as int] < grown[self.edges[i].target as int] by {
            if i < old.edges.len() {
                assert(self.edges[i] == old.edges[i]);
            }
        }
        assert(self.ranked_by(grown));
    }

    /// An edge from a node that no edge leads to, to another node, closes no cycle.
    pub proof fn lemma_edge_from_source_acyclic(
        self,
        source: NodeRef,
        target: NodeRef,
        dependency: QueryGraphDependencyView,
    )
        requires
            self.wf(),
            self.acyclic(),
            self.contains(source),
            self.contains(target),
            source != target,
            forall|i: int| 0 <= i < self.edges.len() ==> (#[trigger] self.edges[i]).target
                != source.node_ix,
        ensures
            self.with_edge(source, target, dependency).acyclic(),
    {
        let ranks = choose|ranks: Seq<int>| self.ranked_by(ranks);
        let grown = self.with_edge(source, target, dependency);
        // The source sinks below every other node.
        let below = lemma_ranks_bounded(ranks.map_values(|r: int| -r));
        let sunk = ranks.update(source.node_ix as int, -below - 1);
        assert forall|i: int| 0 <= i < grown.edges.len() implies sunk[(
        #[trigger] grown.edges[i]).source as int] < sunk[grown.edges[i].target as int] by {
            let edge = grown.edges[i];
            assert(ranks.map_values(|r: int| -r)[edge.target as int] == -ranks[edge.target as int]);
            if i < self.edges.len() {
                assert(edge == self.edges[i]);
            }
        }
        assert(grown.ranked_by(sunk));
    }
}

/// The message of the error for an edge that cannot rewrite the result node it leads to.
pub open spec fn conflicting_edge_message() -> Seq<char> {
    "The dependency cannot apply to the result node it leads to."@
}

impl QueryGraph {
    /// A graph without nodes.
    pub fn new() -> (graph: QueryGraph)
        ensures
            graph@ == QueryGraphView::empty(),
            graph@.wf(),
    {
        let graph = QueryGraph {
            nodes: Vec::new(),
            edges: Vec::new(),
            result_node: None,
            transactional: false,
        };
        assert(graph.nodes.deep_view() =~= Seq::<NodeView>::empty());
        assert(graph.edges.deep_view() =~= Seq::<EdgeView>::empty());
        graph
    }

    /// Adds a node and hands back its handle.
    pub fn create_node(&mut self, node: Node) -> (handle: NodeRef)
        requires
            old(self)@.wf(),
        ensures
            final(self)@ == old(self)@.with_node(node@),
            handle.node_ix == old(self)@.nodes.len(),
            final(self)@.wf(),
    {
        let handle = NodeRef { node_ix: self.nodes.len() };
        self.nodes.push(node);
        let count = self.nodes.len();
        assert(self.nodes.deep_view().len() == count);
        assert(self.nodes.deep_view() =~= old(self).nodes.deep_view().push(node@));
        assert(self.edges.deep_view() =~= old(self).edges.deep_view());
        handle
    }

    /// Adds an edge from `source` to `target`.
    ///
    /// An edge into the result node is refused if its dependency cannot rewrite a node of that
    /// kind; every other edge is accepted.
    pub fn create_edge(
        &mut self,
        source: &NodeRef,
        target: &NodeRef,
        dependency: QueryGraphDependency,
    ) -> (r: Result<(), QueryGraphBuilderError>)
        requires
            old(self)@.wf(),
            old(self)@.contains(*source),
            old(self)@.contains(*target),
        ensures
            final(self)@.wf(),
            old(self)@.admits_edge(*target, dependency@) ==> r is Ok && final(self)@ == old(
                self,
            )@.with_edge(*source, *target, dependency@),
            !old(self)@.admits_edge(*target, dependency@) ==> r is Err && r->Err_0@
                == QueryGraphBuilderErrorView::AssertionError(conflicting_edge_message())
                && final(self)@ == old(self)@,
    {
        if self.result_node == Some(target.node_ix) {
            if !dependency_fits(&dependency, &self.nodes[target.node_ix]) {
                return Err(
                    QueryGraphBuilderError::AssertionError(
                        String::from_str(
                            "The dependency cannot apply to the result node it leads to.",
                        ),
                    ),
                );
            }
        }
        let ghost view = dependency@;
        self.edges.push(Edge { source: source.node_ix, target: target.node_ix, dependency });
        assert(self.nodes.deep_view() =~= old(self).nodes.deep_view());
        assert(self.edges.deep_view() =~= old(self).edges.deep_view().push(
            EdgeView { source: source.node_ix, target: target.node_ix, dependency: view },
        ));
        Ok(())
    }

    /// Makes `node` the node whose output is the answer of the whole graph.
    pub fn add_result_node(&mut self, node: &NodeRef)
        requires
            old(self)@.wf(),
            old(self)@.contains(*node),
        ensures
            final(self)@ == old(self)@.with_result(*node),
            final(self)@.wf(),
    {
        self.result_node = Some(node.node_ix);
    }

    /// Demands that the graph be executed inside one transaction.
    pub fn flag_transactional(&mut self)
        ensures
            final(self)@ == old(self)@.flagged(),
    {
        self.transactional = true;
    }

    /// Whether the graph must be executed inside one transaction.
    pub fn needs_transaction(&self) -> (r: bool)
        ensures
            r == self@.transactional,
    {
        self.transactional
    }

    /// The handle of the result node, if one was set.
    pub fn result_node(&self) -> (r: Option<NodeRef>)
        ensures
            r == match self@.result_node {
                Some(ix) => Some(NodeRef { node_ix: ix }),
                None => None,
            },
    {
        match self.result_node {
            Some(ix) => Some(NodeRef { node_ix: ix }),
            None => None,
        }
    }

    /// The node behind a handle.
    pub fn node(&self, handle: &NodeRef) -> (r: &Node)
        requires
            self@.contains(*handle),
        ensures
            r@ == self@.nodes[handle.node_ix as int],
    {
        &self.nodes[handle.node_ix]
    }

    /// The number of nodes.
    pub fn node_count(&self) -> (r: usize)
        ensures
            r == self@.nodes.len(),
    {
        self.nodes.len()
    }
}

/// Whether a dependency can rewrite a node.
pub fn dependency_fits(dependency: &QueryGraphDependency, node: &Node) -> (r: bool)
    ensures
        r == dependency@.fits(node@),
{
    match dependency {
        QueryGraphDependency::ExecutionOrder => true,
        QueryGraphDependency::ProjectedDataDependency(_, transform, _) => match transform {
            Transform::Identity => true,
            Transform::UpdateManyFilter => matches!(
                node,
                Node::Query(Query::Write(WriteQuery::UpdateManyRecords(_)))
            ),
            Transform::ConnectParent => matches!(
                node,
                Node::Query(Query::Write(WriteQuery::ConnectRecords(_)))
            ),
            Transform::ConnectChildren => matches!(
                node,
                Node::Query(Query::Write(WriteQuery::ConnectRecords(_)))
            ),
        },
        QueryGraphDependency::ProjectedDataSinkDependency(_, sink, _) => match sink {
            RowSink::AllUpdateRecordSelectors => matches!(
                node,
                Node::Query(Query::Write(WriteQuery::UpdateRecord(_)))
            ),
            RowSink::ExactlyOneRecordQueryFilter => matches!(
                node,
                Node::Query(Query::Read(ReadQuery::RecordQuery(_)))
            ),
        },
    }
}

} // verus!
