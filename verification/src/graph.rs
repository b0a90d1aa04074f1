//! The graph store: a `petgraph` graph with text on its nodes and edges.
//!
//! Nothing in this file is proved. Each function states what the `petgraph`
//! item that it calls does to the graph, over two sequences that stand for
//! the graph's contents.

use petgraph::dot::Dot;
use petgraph::graph::Graph;
use petgraph::graph::NodeIndex;
use vstd::prelude::*;

verus! {

/// `petgraph::graph::Graph`, of which nothing but the two sequences below is
/// known.
#[verifier::external_type_specification]
#[verifier::external_body]
#[verifier::reject_recursive_types(N)]
#[verifier::reject_recursive_types(E)]
#[verifier::reject_recursive_types(Ty)]
#[verifier::reject_recursive_types(Ix)]
pub struct ExGraph<N, E, Ty, Ix>(petgraph::graph::Graph<N, E, Ty, Ix>);

/// `petgraph::Directed`, the marker of a graph whose edges have a direction.
#[verifier::external_type_specification]
#[verifier::external_body]
pub struct ExDirected(petgraph::Directed);

/// The weights of the graph's nodes, in the order of their indices.
pub uninterp spec fn node_weights(g: Graph<String, String>) -> Seq<Seq<char>>;

/// The graph's edges in the order of their indices: for each the index of
/// its source, the index of its target, and its weight.
pub uninterp spec fn edge_entries(g: Graph<String, String>) -> Seq<(int, int, Seq<char>)>;

/// The text that `petgraph::dot::Dot`, with no configuration, displays for a
/// directed graph with these node weights and these edges.
pub uninterp spec fn dot_text(weights: Seq<Seq<char>>, edges: Seq<(int, int, Seq<char>)>) -> Seq<
    char,
>;

/// `Graph::new`: a directed graph without nodes and without edges.
#[verifier::external_body]
pub(crate) fn graph_new() -> (g: Graph<String, String>)
    ensures
        node_weights(g) == Seq::<Seq<char>>::empty(),
        edge_entries(g) == Seq::<(int, int, Seq<char>)>::empty(),
{
    Graph::new()
}

/// `Graph::node_count`: the number of nodes.
#[verifier::external_body]
pub(crate) fn graph_node_count(g: &Graph<String, String>) -> (n: usize)
    ensures
        n == node_weights(*g).len(),
{
    g.node_count()
}

/// `Graph::edge_count`: the number of edges.
#[verifier::external_body]
pub(crate) fn graph_edge_count(g: &Graph<String, String>) -> (n: usize)
    ensures
        n == edge_entries(*g).len(),
{
    g.edge_count()
}

/// `Graph::add_node`: appends a node with the given weight and returns its
/// index, which is the number of nodes before the call. The edges stay as
/// they are. `add_node` panics when the index would be `u32::MAX`, which the
/// precondition excludes.
#[verifier::external_body]
pub(crate) fn graph_add_node(g: &mut Graph<String, String>, weight: String) -> (index: usize)
    requires
        node_weights(*old(g)).len() < u32::MAX,
    ensures
        index == node_weights(*old(g)).len(),
        node_weights(*final(g)) == node_weights(*old(g)).push(weight@),
        edge_entries(*final(g)) == edge_entries(*old(g)),
{
    g.add_node(weight).index()
}

/// `Graph::node_weight_mut`: gives access to the weight of the node at
/// `index`, which is then overwritten. It returns `None` only for an index
/// that is not a node's, which the precondition excludes. Nothing else
/// changes.
#[verifier::external_body]
pub(crate) fn graph_set_weight(g: &mut Graph<String, String>, index: usize, weight: String)
    requires
        index < node_weights(*old(g)).len(),
    ensures
        node_weights(*final(g)) == node_weights(*old(g)).update(index as int, weight@),
        edge_entries(*final(g)) == edge_entries(*old(g)),
{
    *g.node_weight_mut(NodeIndex::new(index)).unwrap() = weight;
}

/// `Graph::add_edge`: appends an edge from the node at `from` to the node at
/// `to` with the given weight. Parallel edges are kept. The nodes stay as
/// they are. `add_edge` panics when an endpoint is not a node's index or when
/// the new edge's index would be `u32::MAX`; the precondition excludes both.
#[verifier::external_body]
pub(crate) fn graph_add_edge(g: &mut Graph<String, String>, from: usize, to: usize, weight: String)
    requires
        from < node_weights(*old(g)).len(),
        to < node_weights(*old(g)).len(),
        edge_entries(*old(g)).len() < u32::MAX,
    ensures
        node_weights(*final(g)) == node_weights(*old(g)),
        edge_entries(*final(g)) == edge_entries(*old(g)).push((from as int, to as int, weight@)),
{
    g.add_edge(NodeIndex::new(from), NodeIndex::new(to), weight);
}

/// `Dot::new` and its `Display`: the graph in Graphviz's dot format. The
/// text depends on the node weights and the edges alone.
#[verifier::external_body]
pub(crate) fn graph_dot(g: &Graph<String, String>) -> (text: String)
    ensures
        text@ == dot_text(node_weights(*g), edge_entries(*g)),
{
    format!("{}", Dot::new(g))
}

} // verus!
