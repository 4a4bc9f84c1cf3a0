//! The call graph.
//!
//! The graph is a `petgraph` graph whose nodes carry a [`Node`] each and whose edges
//! lead from a function to a function that it calls. Nothing here changes it. What the
//! browser reads of it, it reads through the two functions of this module that call
//! into `petgraph`; their contracts are taken on trust and say what `petgraph` is
//! relied on to do.

use crate::node::found_view;
use crate::node::Node;
use crate::node::NodeView;
use crate::rank::arrange;
use crate::rank::arranged;
use crate::row::callee_item;
use crate::row::callee_row;
use crate::row::rows_of_items;
use crate::row::self_item;
use crate::row::self_row;
use crate::row::Item;
use crate::row::Row;
use petgraph::graph::Graph;
use petgraph::graph::NodeIndex;
use petgraph::Directed;
use vstd::prelude::*;

verus! {

#[verifier::external_type_specification]
#[verifier::external_body]
#[verifier::reject_recursive_types(N)]
#[verifier::reject_recursive_types(E)]
#[verifier::reject_recursive_types(Ty)]
#[verifier::reject_recursive_types(Ix)]
pub struct ExGraph<N, E, Ty, Ix>(Graph<N, E, Ty, Ix>);

#[verifier::external_type_specification]
#[verifier::external_body]
pub struct ExDirected(Directed);

/// A directed graph of functions. A handle is the index of a node in it.
pub type CallGraph = Graph<Node, (), Directed, u32>;

/// The functions that a graph holds, each at the index that is its handle.
pub uninterp spec fn graph_nodes(graph: Graph<Node, (), Directed, u32>) -> Seq<NodeView>;

/// For each function that a graph holds, the handles of the functions it calls: one
/// for each edge that leaves it, in the order in which the graph lists those edges.
pub uninterp spec fn graph_calls(graph: Graph<Node, (), Directed, u32>) -> Seq<Seq<u32>>;

/// Looks a handle up, with `Graph::node_weight` on the index that `NodeIndex::new`
/// makes of it.
///
/// Trusted: the graph holds its nodes at the indices from 0 up to their number, the
/// lookup finds the node at the index it is given, and finds nothing at an index that
/// is not below that number.
#[verifier::external_body]
pub(crate) fn node_at(graph: &CallGraph, id: u32) -> (found: Option<&Node>)
    ensures
        match found {
            Some(node) => id < graph_nodes(*graph).len() && node@ == graph_nodes(*graph)[id as int],
            None => id >= graph_nodes(*graph).len(),
        },
{
    graph.node_weight(NodeIndex::new(id as usize))
}

/// Lists the functions that a function calls, with `Graph::neighbors`, each as the
/// number that `NodeIndex::index` gives.
///
/// Trusted: for a directed graph the listing walks the edges that leave the node, one
/// target for each edge, always in the same order for the same graph, and it is empty
/// for an index that the graph holds no node at.
#[verifier::external_body]
pub(crate) fn callees_of(graph: &CallGraph, id: u32) -> (callees: Vec<u32>)
    ensures
        callees@ == (if id < graph_nodes(*graph).len() {
            graph_calls(*graph)[id as int]
        } else {
            Seq::<u32>::empty()
        }),
{
    graph.neighbors(NodeIndex::new(id as usize)).map(|n| n.index() as u32).collect()
}

/// What the browser reads of a graph.
pub struct GraphView {
    /// The functions, by handle.
    pub nodes: Seq<NodeView>,
    /// The handles of the functions that each function calls, one for each call.
    pub calls: Seq<Seq<u32>>,
}

/// What the browser reads of `graph`.
pub open spec fn graph_view(graph: CallGraph) -> GraphView {
    GraphView { nodes: graph_nodes(graph), calls: graph_calls(graph) }
}

impl GraphView {
    /// Whether the graph holds a function under `id`.
    pub open spec fn has(self, id: u32) -> bool {
        id < self.nodes.len()
    }

    /// What the graph holds under `id`.
    pub open spec fn node(self, id: u32) -> Option<NodeView> {
        if self.has(id) {
            Some(self.nodes[id as int])
        } else {
            None
        }
    }

    /// The functions that `id` calls, one for each call, in the graph's order. A handle
    /// that the graph does not hold calls nothing.
    pub open spec fn callees(self, id: u32) -> Seq<u32> {
        if self.has(id) {
            self.calls[id as int]
        } else {
            Seq::empty()
        }
    }

    /// The rows of the functions that `id` calls, in the graph's order.
    pub open spec fn callee_rows(self, id: u32) -> Seq<Row> {
        self.callees(id).map_values(|callee: u32| callee_row(callee, self.node(callee)))
    }

    /// The row of `id` itself, then the rows of the functions it calls, in the graph's
    /// order.
    pub open spec fn raw_rows(self, id: u32) -> Seq<Row> {
        seq![self_row(id, self.nodes[id as int])] + self.callee_rows(id)
    }

    /// The rows that are displayed for `id`.
    pub open spec fn rows(self, id: u32) -> Seq<Row> {
        arranged(self.raw_rows(id))
    }
}

/// Makes the rows that are displayed for `id`, or nothing where the graph holds no
/// function under `id`.
pub fn rows_for(graph: &CallGraph, id: u32) -> (rows: Option<Vec<Item>>)
    ensures
        match rows {
            Some(items) => graph_view(*graph).has(id) && rows_of_items(items@) == graph_view(
                *graph,
            ).rows(id),
            None => !graph_view(*graph).has(id),
        },
{
    let ghost view = graph_view(*graph);
    match node_at(graph, id) {
        None => None,
        Some(node) => {
            let mut items: Vec<Item> = Vec::new();
            items.push(self_item(id, node));
            let callees = callees_of(graph, id);
            let mut done: usize = 0;
            assert(rows_of_items(items@) =~= seq![self_row(id, view.nodes[id as int])]
                + view.callee_rows(id).take(0));
            while done < callees.len()
                invariant
                    view == graph_view(*graph),
                    view.has(id),
                    callees@ == view.callees(id),
                    done <= callees.len(),
                    rows_of_items(items@) == seq![self_row(id, view.nodes[id as int])]
                        + view.callee_rows(id).take(done as int),
                decreases callees.len() - done,
            {
                let callee = callees[done];
                let found = node_at(graph, callee);
                assert(found_view(found) == view.node(callee));
                let ghost before = rows_of_items(items@);
                items.push(callee_item(callee, found));
                assert(rows_of_items(items@) =~= before.push(
                    callee_row(callee, view.node(callee)),
                ));
                assert(view.callee_rows(id).take(done + 1) =~= view.callee_rows(id).take(
                    done as int,
                ).push(callee_row(callee, view.node(callee))));
                done = done + 1;
            }
            assert(view.callee_rows(id).take(done as int) =~= view.callee_rows(id));
            Some(arrange(items))
        },
    }
}

} // verus!
