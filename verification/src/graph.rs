//! The open hypergraph under construction, as this library sees it.
//!
//! The graph itself is kept by `open_hypergraphs`. What it holds is named
//! here as a mathematical value, and each operation that the library
//! performs on it is given a contract over that value.

use crate::classes::linked;
use crate::labels::{name_of, HObject, HOperation};
use open_hypergraphs::lax::{Hyperedge, NodeId, OpenHypergraph};
use vstd::prelude::*;

verus! {

/// `open_hypergraphs::lax::OpenHypergraph`, which Verus does not look into.
#[verifier::external_type_specification]
#[verifier::external_body]
#[verifier::reject_recursive_types(O)]
#[verifier::reject_recursive_types(A)]
pub struct ExOpenHypergraph<O, A>(OpenHypergraph<O, A>);

/// What an open hypergraph holds, field by field. Nodes and edges are
/// numbered from zero in the order of their creation, and a node is
/// referred to by its number.
#[verifier::ext_equal]
pub struct GraphModel<L> {
    /// The label of each node (`hypergraph.nodes`).
    pub nodes: Seq<L>,
    /// The operation name of each edge (`hypergraph.edges`).
    pub edges: Seq<Seq<char>>,
    /// For each edge, its ordered source nodes and its ordered target nodes
    /// (`hypergraph.adjacency`).
    pub adjacency: Seq<(Seq<int>, Seq<int>)>,
    /// The nodes declared identical, pair by pair: `left[k]` with `right[k]`
    /// (the two lists of `hypergraph.quotient`).
    pub left: Seq<int>,
    pub right: Seq<int>,
    /// The ordered input interface (`sources`).
    pub sources: Seq<int>,
    /// The ordered output interface (`targets`).
    pub targets: Seq<int>,
}

/// The label of a wire as a mathematical value: `None` while unresolved.
pub type Label = Option<Seq<char>>;

/// What a graph holds whose wires carry possibly unresolved labels.
pub uninterp spec fn graph_model(graph: OpenHypergraph<HObject, HOperation>) -> GraphModel<Label>;

/// What a graph holds whose wires carry type names.
pub uninterp spec fn named_graph_model(graph: OpenHypergraph<String, HOperation>) -> GraphModel<
    Seq<char>,
>;

/// What a graph holds whose wires and edges carry plain names.
pub uninterp spec fn plain_graph_model(graph: OpenHypergraph<String, String>) -> GraphModel<
    Seq<char>,
>;

/// A list of node numbers as mathematical integers.
pub open spec fn ids(nodes: Seq<usize>) -> Seq<int> {
    nodes.map_values(|n: usize| n as int)
}

/// The views of a list of labels.
pub open spec fn labels_view(labels: Seq<HObject>) -> Seq<Label> {
    labels.map_values(|label: HObject| label@)
}

impl<L> GraphModel<L> {
    /// The graph without nodes, edges or interface.
    pub open spec fn empty() -> Self {
        GraphModel {
            nodes: Seq::empty(),
            edges: Seq::empty(),
            adjacency: Seq::empty(),
            left: Seq::empty(),
            right: Seq::empty(),
            sources: Seq::empty(),
            targets: Seq::empty(),
        }
    }

    /// The graph with one more node, labelled `label`.
    pub open spec fn with_node(self, label: L) -> Self {
        GraphModel { nodes: self.nodes.push(label), ..self }
    }

    /// The graph with one more edge.
    pub open spec fn with_edge(self, name: Seq<char>, sources: Seq<int>, targets: Seq<int>) -> Self {
        GraphModel {
            edges: self.edges.push(name),
            adjacency: self.adjacency.push((sources, targets)),
            ..self
        }
    }

    /// The graph with `v` and `w` declared identical.
    pub open spec fn with_unified(self, v: int, w: int) -> Self {
        GraphModel { left: self.left.push(v), right: self.right.push(w), ..self }
    }

    /// The graph with another interface.
    pub open spec fn with_interface(self, sources: Seq<int>, targets: Seq<int>) -> Self {
        GraphModel { sources, targets, ..self }
    }

    /// The graph with other node labels.
    pub open spec fn with_labels<M>(self, labels: Seq<M>) -> GraphModel<M> {
        GraphModel {
            nodes: labels,
            edges: self.edges,
            adjacency: self.adjacency,
            left: self.left,
            right: self.right,
            sources: self.sources,
            targets: self.targets,
        }
    }

    /// Every number in `nodes` is the number of a node of the graph.
    pub open spec fn holds(self, nodes: Seq<int>) -> bool {
        forall|i: int| 0 <= i < nodes.len() ==> 0 <= #[trigger] nodes[i] < self.nodes.len()
    }

    /// The unified pairs come two by two and name nodes of the graph.
    pub open spec fn pairs_in_range(self) -> bool {
        &&& self.left.len() == self.right.len()
        &&& self.holds(self.left)
        &&& self.holds(self.right)
    }

    /// Every node that an edge, a unified pair or the interface refers to
    /// exists, and each edge has its adjacency.
    pub open spec fn well_formed(self) -> bool {
        &&& self.pairs_in_range()
        &&& self.holds(self.sources)
        &&& self.holds(self.targets)
        &&& self.edges.len() == self.adjacency.len()
        &&& forall|e: int|
            0 <= e < self.adjacency.len() ==> self.holds((#[trigger] self.adjacency[e]).0)
                && self.holds(self.adjacency[e].1)
    }

    /// Whether nodes `a` and `b` have been identified, directly or through
    /// other nodes: whether a chain of pairs leads from the one to the other.
    pub open spec fn same_class(self, a: int, b: int) -> bool {
        linked(self.left, self.right, a, b)
    }

    /// Nodes that have been identified carry the same label.
    pub open spec fn classes_agree(self) -> bool {
        forall|a: int, b: int|
            0 <= a < self.nodes.len() && 0 <= b < self.nodes.len() && self.same_class(a, b)
                ==> #[trigger] self.nodes[a] == #[trigger] self.nodes[b]
    }

    /// `after` is this graph with each class of identified nodes made one
    /// node: `table` gives each node the number of the node that its class
    /// has become, which carries the label of the class; edges and
    /// interface refer to the new numbers, and no pair is left. The classes
    /// are numbered in the order in which their first nodes come.
    pub open spec fn collapses_to(self, after: Self, table: Seq<usize>) -> bool {
        &&& table.len() == self.nodes.len()
        &&& forall|a: int| 0 <= a < table.len() ==> (#[trigger] table[a]) < after.nodes.len()
        &&& forall|c: int| 0 <= c < after.nodes.len() ==> #[trigger] numbers(table, c)
        &&& forall|a: int, c: int|
            0 <= a < table.len() && 0 <= c < table[a] ==> #[trigger] numbers(table.take(a), c)
        &&& forall|a: int, b: int|
            0 <= a < table.len() && 0 <= b < table.len() ==> ((#[trigger] table[a]
                == #[trigger] table[b]) <==> self.same_class(a, b))
        &&& forall|a: int|
            0 <= a < table.len() ==> after.nodes[(#[trigger] table[a]) as int] == self.nodes[a]
        &&& after.edges == self.edges
        &&& after.adjacency == self.adjacency.map_values(
            |ends: (Seq<int>, Seq<int>)| (renumbered(ends.0, table), renumbered(ends.1, table)),
        )
        &&& after.left == Seq::<int>::empty()
        &&& after.right == Seq::<int>::empty()
        &&& after.sources == renumbered(self.sources, table)
        &&& after.targets == renumbered(self.targets, table)
    }
}

/// Some node has the number `c` in `table`.
pub open spec fn numbers(table: Seq<usize>, c: int) -> bool {
    exists|a: int| 0 <= a < table.len() && #[trigger] table[a] == c
}

/// The nodes that `nodes` have become under `table`.
pub open spec fn renumbered(nodes: Seq<int>, table: Seq<usize>) -> Seq<int> {
    nodes.map_values(|node: int| table[node] as int)
}

/// `OpenHypergraph::empty`: a graph that holds nothing.
#[verifier::external_body]
pub(crate) fn empty_graph() -> (graph: OpenHypergraph<HObject, HOperation>)
    ensures
        graph_model(graph) == GraphModel::<Label>::empty(),
{
    OpenHypergraph::empty()
}

/// `OpenHypergraph::new_node`: appends one node with the given label and
/// returns its number, which is the number of nodes before; nothing else
/// changes.
#[verifier::external_body]
pub(crate) fn add_node(graph: &mut OpenHypergraph<HObject, HOperation>, label: HObject) -> (node:
    usize)
    ensures
        node == graph_model(*old(graph)).nodes.len(),
        graph_model(*final(graph)) == graph_model(*old(graph)).with_node(label@),
{
    graph.new_node(label).0
}

/// `OpenHypergraph::new_edge`: appends one edge with the given label, sources
/// and targets; nothing else changes.
#[verifier::external_body]
pub(crate) fn add_edge(
    graph: &mut OpenHypergraph<HObject, HOperation>,
    operation: HOperation,
    sources: Vec<usize>,
    targets: Vec<usize>,
)
    ensures
        graph_model(*final(graph)) == graph_model(*old(graph)).with_edge(
            operation@,
            ids(sources@),
            ids(targets@),
        ),
{
    let interface = Hyperedge {
        sources: sources.into_iter().map(NodeId).collect(),
        targets: targets.into_iter().map(NodeId).collect(),
    };
    graph.new_edge(operation, interface);
}

/// `OpenHypergraph::unify`: records the pair `(v, w)` behind the pairs
/// recorded so far; nothing else changes.
#[verifier::external_body]
pub(crate) fn unify_nodes(graph: &mut OpenHypergraph<HObject, HOperation>, v: usize, w: usize)
    ensures
        graph_model(*final(graph)) == graph_model(*old(graph)).with_unified(v as int, w as int),
{
    graph.unify(NodeId(v), NodeId(w));
}

/// Assigns the public fields `sources` and `targets` of the graph; nothing
/// else changes.
#[verifier::external_body]
pub(crate) fn set_interface(
    graph: &mut OpenHypergraph<HObject, HOperation>,
    sources: Vec<usize>,
    targets: Vec<usize>,
)
    ensures
        graph_model(*final(graph)) == graph_model(*old(graph)).with_interface(
            ids(sources@),
            ids(targets@),
        ),
{
    graph.sources = sources.into_iter().map(NodeId).collect();
    graph.targets = targets.into_iter().map(NodeId).collect();
}

/// The length of the public field `hypergraph.nodes`.
#[verifier::external_body]
pub(crate) fn node_count(graph: &OpenHypergraph<HObject, HOperation>) -> (count: usize)
    ensures
        count == graph_model(*graph).nodes.len(),
{
    graph.hypergraph.nodes.len()
}

/// Reads one element of the public field `hypergraph.nodes`.
#[verifier::external_body]
pub(crate) fn node_label(graph: &OpenHypergraph<HObject, HOperation>, node: usize) -> (label:
    &HObject)
    requires
        node < graph_model(*graph).nodes.len(),
    ensures
        label@ == graph_model(*graph).nodes[node as int],
{
    &graph.hypergraph.nodes[node]
}

/// Overwrites one element of the public field `hypergraph.nodes`; nothing
/// else changes.
#[verifier::external_body]
pub(crate) fn set_node_label(
    graph: &mut OpenHypergraph<HObject, HOperation>,
    node: usize,
    label: HObject,
)
    requires
        node < graph_model(*old(graph)).nodes.len(),
    ensures
        graph_model(*final(graph)) == graph_model(*old(graph)).with_labels(
            graph_model(*old(graph)).nodes.update(node as int, label@),
        ),
{
    graph.hypergraph.nodes[node] = label;
}

/// `Hypergraph::coequalizer`: the connected components of the graph whose
/// edges are the unified pairs. The table gives each node the number of its
/// component, so two nodes get the same number exactly when a chain of
/// pairs leads from the one to the other. Components are numbered from
/// zero without gaps, so every number is below the number of nodes. The
/// call panics on a graph whose pairs are out of range, which is left out.
#[verifier::external_body]
pub(crate) fn coequalizer_table(graph: &OpenHypergraph<HObject, HOperation>) -> (table: Vec<usize>)
    requires
        graph_model(*graph).pairs_in_range(),
    ensures
        table@.len() == graph_model(*graph).nodes.len(),
        forall|a: int| 0 <= a < table@.len() ==> (#[trigger] table@[a]) < table@.len(),
        forall|a: int, b: int|
            0 <= a < table@.len() && 0 <= b < table@.len() ==> ((#[trigger] table@[a]
                == #[trigger] table@[b]) <==> graph_model(*graph).same_class(a, b)),
{
    graph.hypergraph.coequalizer().table.0
}

/// `OpenHypergraph::quotient`: computes the connected components of the
/// unified pairs and, where the nodes of each component carry equal labels,
/// makes each component one node, as `collapses_to` says; the table of
/// component numbers is returned. Where two nodes of one component differ
/// in their label, the call fails: it hands the table back as an error and
/// leaves the graph without nodes and otherwise as it was. The call panics
/// on a graph that refers to nodes it does not have, which is left out.
#[verifier::external_body]
pub(crate) fn quotient_graph(graph: &mut OpenHypergraph<HObject, HOperation>) -> (result: Result<
    Vec<usize>,
    Vec<usize>,
>)
    requires
        graph_model(*old(graph)).well_formed(),
    ensures
        result is Ok <==> graph_model(*old(graph)).classes_agree(),
        result is Ok ==> graph_model(*old(graph)).collapses_to(
            graph_model(*final(graph)),
            result->Ok_0@,
        ),
        result is Err ==> graph_model(*final(graph)) == graph_model(*old(graph)).with_labels(
            Seq::<Label>::empty(),
        ),
{
    match graph.quotient() {
        Ok(coequalizer) => Ok(coequalizer.table.0),
        Err(coequalizer) => Err(coequalizer.table.0),
    }
}

/// `OpenHypergraph::map_nodes`, with the function that takes the type name
/// out of a label: the graph is the same, and each node carries the name
/// that `HObject::into_name` gives for its label.
#[verifier::external_body]
pub(crate) fn with_node_names(graph: OpenHypergraph<HObject, HOperation>) -> (named: OpenHypergraph<
    String,
    HOperation,
>)
    ensures
        named_graph_model(named) == graph_model(graph).with_labels(
            graph_model(graph).nodes.map_values(|label: Label| name_of(label)),
        ),
{
    graph.map_nodes(|label| label.into_name())
}

/// `OpenHypergraph::map_edges`, with the function that takes the name out of
/// an edge label: the graph is the same, its edge labels are plain names.
#[verifier::external_body]
pub(crate) fn with_edge_names(graph: OpenHypergraph<String, HOperation>) -> (plain: OpenHypergraph<
    String,
    String,
>)
    ensures
        plain_graph_model(plain) == named_graph_model(graph),
{
    graph.map_edges(|operation| operation.0)
}

} // verus!
