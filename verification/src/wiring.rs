//! What translation guarantees of the edges of a graph and of the way it
//! composes diagrams.

use crate::ast::{ExprModel, VariableModel};
use crate::error::ErrorModel;
use crate::graph::{GraphModel, Label};
use crate::model::{
    lemma_chain_extends, lemma_chain_failure, lemma_occurrences_extend, lemma_row_extends,
    translate_chain, translate_row, translate_spec, Failed, SignatureModel, Translated,
    TranslationState,
};
use vstd::prelude::*;

verus! {

/// Every edge carries a known operation and has as many sources and targets
/// as the signature of that operation has input and output types.
pub open spec fn edges_fit(
    graph: GraphModel<Label>,
    signatures: Map<Seq<char>, SignatureModel>,
) -> bool {
    &&& graph.edges.len() == graph.adjacency.len()
    &&& forall|e: int|
        0 <= e < graph.edges.len() ==> {
            &&& signatures.contains_key(#[trigger] graph.edges[e])
            &&& graph.adjacency[e].0.len() == signatures[graph.edges[e]].inputs.len()
            &&& graph.adjacency[e].1.len() == signatures[graph.edges[e]].outputs.len()
        }
}

/// Occurrences of variables add no edge.
pub proof fn lemma_occurrences_keep_edges(
    state: TranslationState,
    variables: Seq<VariableModel>,
    upto: nat,
)
    ensures
        state.with_occurrences(variables, upto).graph.edges == state.graph.edges,
        state.with_occurrences(variables, upto).graph.adjacency == state.graph.adjacency,
    decreases upto,
{
    if upto > 0 {
        lemma_occurrences_keep_edges(state, variables, (upto - 1) as nat);
    }
}

/// Where every edge fits its signature before a translation, every edge
/// fits its signature after it: each edge that an operation adds has the
/// arity of the operation.
pub proof fn lemma_edges_fit(
    signatures: Map<Seq<char>, SignatureModel>,
    state: TranslationState,
    expr: ExprModel,
)
    requires
        edges_fit(state.graph, signatures),
    ensures
        translate_spec(signatures, state, expr) is Ok ==> edges_fit(
            translate_spec(signatures, state, expr)->Ok_0.state.graph,
            signatures,
        ),
    decreases expr, 0nat,
{
    match expr {
        ExprModel::Operation(name) => {},
        ExprModel::Frobenius { inputs, outputs } => {
            lemma_occurrences_keep_edges(state, inputs, inputs.len());
            lemma_occurrences_keep_edges(
                state.with_occurrences(inputs, inputs.len()),
                outputs,
                outputs.len(),
            );
        },
        ExprModel::Composition(parts) => {
            lemma_chain_edges_fit(signatures, state, parts, parts.len());
        },
        ExprModel::Tensor(parts) => {
            lemma_row_edges_fit(signatures, state, parts, parts.len());
        },
    }
}

/// What `lemma_edges_fit` says, of a composition.
pub proof fn lemma_chain_edges_fit(
    signatures: Map<Seq<char>, SignatureModel>,
    state: TranslationState,
    parts: Seq<ExprModel>,
    upto: nat,
)
    requires
        edges_fit(state.graph, signatures),
    ensures
        translate_chain(signatures, state, parts, upto) is Ok ==> edges_fit(
            translate_chain(signatures, state, parts, upto)->Ok_0.state.graph,
            signatures,
        ),
    decreases parts, upto,
{
    if upto == 0 || upto > parts.len() {
    } else if upto == 1 {
        lemma_edges_fit(signatures, state, parts[0]);
    } else {
        lemma_chain_edges_fit(signatures, state, parts, (upto - 1) as nat);
        if translate_chain(signatures, state, parts, (upto - 1) as nat) is Ok {
            let before = translate_chain(signatures, state, parts, (upto - 1) as nat)->Ok_0;
            lemma_edges_fit(signatures, before.state, parts[upto - 1]);
        }
    }
}

/// What `lemma_edges_fit` says, of a tensor.
pub proof fn lemma_row_edges_fit(
    signatures: Map<Seq<char>, SignatureModel>,
    state: TranslationState,
    parts: Seq<ExprModel>,
    upto: nat,
)
    requires
        edges_fit(state.graph, signatures),
    ensures
        translate_row(signatures, state, parts, upto) is Ok ==> edges_fit(
            translate_row(signatures, state, parts, upto)->Ok_0.state.graph,
            signatures,
        ),
    decreases parts, upto,
{
    if upto == 0 || upto > parts.len() {
    } else {
        lemma_row_edges_fit(signatures, state, parts, (upto - 1) as nat);
        if translate_row(signatures, state, parts, (upto - 1) as nat) is Ok {
            let before = translate_row(signatures, state, parts, (upto - 1) as nat)->Ok_0;
            lemma_edges_fit(signatures, before.state, parts[upto - 1]);
        }
    }
}

/// The sources and targets of each edge carry the types that the signature
/// of its operation gives to its inputs and outputs.
pub open spec fn edges_typed(
    graph: GraphModel<Label>,
    signatures: Map<Seq<char>, SignatureModel>,
) -> bool {
    &&& edges_fit(graph, signatures)
    &&& forall|e: int, k: int|
        0 <= e < graph.edges.len() && 0 <= k < graph.adjacency[e].0.len()
            ==> #[trigger] graph.nodes[graph.adjacency[e].0[k]] == signatures[graph.edges[e]].inputs[k]
    &&& forall|e: int, k: int|
        0 <= e < graph.edges.len() && 0 <= k < graph.adjacency[e].1.len()
            ==> #[trigger] graph.nodes[graph.adjacency[e].1[k]]
            == signatures[graph.edges[e]].outputs[k]
}

/// Edges that are typed stay typed when the graph is added to.
pub proof fn lemma_edges_stay_typed(
    before: TranslationState,
    after: TranslationState,
    signatures: Map<Seq<char>, SignatureModel>,
)
    requires
        before.well_formed(),
        after.extends(before),
        after.graph.edges == before.graph.edges,
        after.graph.adjacency == before.graph.adjacency,
        edges_typed(before.graph, signatures),
    ensures
        edges_typed(after.graph, signatures),
{
    assert forall|e: int, k: int|
        0 <= e < after.graph.edges.len() && 0 <= k < after.graph.adjacency[e].0.len()
        implies #[trigger] after.graph.nodes[after.graph.adjacency[e].0[k]]
        == signatures[after.graph.edges[e]].inputs[k] by {
        let node = before.graph.adjacency[e].0[k];
        assert(before.graph.holds(before.graph.adjacency[e].0));
        assert(before.graph.nodes[node] == after.graph.nodes[node]);
    }
    assert forall|e: int, k: int|
        0 <= e < after.graph.edges.len() && 0 <= k < after.graph.adjacency[e].1.len()
        implies #[trigger] after.graph.nodes[after.graph.adjacency[e].1[k]]
        == signatures[after.graph.edges[e]].outputs[k] by {
        let node = before.graph.adjacency[e].1[k];
        assert(before.graph.holds(before.graph.adjacency[e].1));
        assert(before.graph.nodes[node] == after.graph.nodes[node]);
    }
}

/// Where every edge is typed before a translation, every edge is typed
/// after it: the nodes that an operation makes carry the types of its
/// signature, and no label is changed.
pub proof fn lemma_edges_typed(
    signatures: Map<Seq<char>, SignatureModel>,
    state: TranslationState,
    expr: ExprModel,
)
    requires
        state.well_formed(),
        edges_typed(state.graph, signatures),
    ensures
        translate_spec(signatures, state, expr) is Ok ==> edges_typed(
            translate_spec(signatures, state, expr)->Ok_0.state.graph,
            signatures,
        ),
    decreases expr, 0nat,
{
    match expr {
        ExprModel::Operation(name) => {
            if signatures.contains_key(name) {
                let translated = translate_spec(signatures, state, expr)->Ok_0;
                let graph = translated.state.graph;
                let signature = signatures[name];
                let last = state.graph.edges.len() as int;
                let first = state.graph.nodes.len() as int;
                assert forall|e: int, k: int|
                    0 <= e < graph.edges.len() && 0 <= k < graph.adjacency[e].0.len()
                    implies #[trigger] graph.nodes[graph.adjacency[e].0[k]]
                    == signatures[graph.edges[e]].inputs[k] by {
                    if e < last {
                        let node = state.graph.adjacency[e].0[k];
                        assert(state.graph.holds(state.graph.adjacency[e].0));
                        assert(graph.nodes[node] == state.graph.nodes[node]);
                    } else {
                        assert(graph.adjacency[e].0[k] == first + k);
                    }
                }
                assert forall|e: int, k: int|
                    0 <= e < graph.edges.len() && 0 <= k < graph.adjacency[e].1.len()
                    implies #[trigger] graph.nodes[graph.adjacency[e].1[k]]
                    == signatures[graph.edges[e]].outputs[k] by {
                    if e < last {
                        let node = state.graph.adjacency[e].1[k];
                        assert(state.graph.holds(state.graph.adjacency[e].1));
                        assert(graph.nodes[node] == state.graph.nodes[node]);
                    } else {
                        assert(graph.adjacency[e].1[k] == first + signature.inputs.len() + k);
                    }
                }
            }
        },
        ExprModel::Frobenius { inputs, outputs } => {
            let middle = state.with_occurrences(inputs, inputs.len());
            let last = middle.with_occurrences(outputs, outputs.len());
            lemma_occurrences_extend(state, inputs, inputs.len());
            lemma_occurrences_extend(middle, outputs, outputs.len());
            lemma_edges_stay_typed(state, middle, signatures);
            lemma_edges_stay_typed(middle, last, signatures);
        },
        ExprModel::Composition(parts) => {
            lemma_chain_edges_typed(signatures, state, parts, parts.len());
        },
        ExprModel::Tensor(parts) => {
            lemma_row_edges_typed(signatures, state, parts, parts.len());
        },
    }
}

/// What `lemma_edges_typed` says, of a composition.
pub proof fn lemma_chain_edges_typed(
    signatures: Map<Seq<char>, SignatureModel>,
    state: TranslationState,
    parts: Seq<ExprModel>,
    upto: nat,
)
    requires
        state.well_formed(),
        edges_typed(state.graph, signatures),
    ensures
        translate_chain(signatures, state, parts, upto) is Ok ==> edges_typed(
            translate_chain(signatures, state, parts, upto)->Ok_0.state.graph,
            signatures,
        ),
    decreases parts, upto,
{
    if upto == 0 || upto > parts.len() {
    } else if upto == 1 {
        lemma_edges_typed(signatures, state, parts[0]);
    } else {
        lemma_chain_edges_typed(signatures, state, parts, (upto - 1) as nat);
        lemma_chain_extends(signatures, state, parts, (upto - 1) as nat);
        if translate_chain(signatures, state, parts, (upto - 1) as nat) is Ok {
            let before = translate_chain(signatures, state, parts, (upto - 1) as nat)->Ok_0;
            lemma_edges_typed(signatures, before.state, parts[upto - 1]);
        }
    }
}

/// What `lemma_edges_typed` says, of a tensor.
pub proof fn lemma_row_edges_typed(
    signatures: Map<Seq<char>, SignatureModel>,
    state: TranslationState,
    parts: Seq<ExprModel>,
    upto: nat,
)
    requires
        state.well_formed(),
        edges_typed(state.graph, signatures),
    ensures
        translate_row(signatures, state, parts, upto) is Ok ==> edges_typed(
            translate_row(signatures, state, parts, upto)->Ok_0.state.graph,
            signatures,
        ),
    decreases parts, upto,
{
    if upto == 0 || upto > parts.len() {
    } else {
        lemma_row_edges_typed(signatures, state, parts, (upto - 1) as nat);
        lemma_row_extends(signatures, state, parts, (upto - 1) as nat);
        if translate_row(signatures, state, parts, (upto - 1) as nat) is Ok {
            let before = translate_row(signatures, state, parts, (upto - 1) as nat)->Ok_0;
            lemma_edges_typed(signatures, before.state, parts[upto - 1]);
        }
    }
}

/// An operation that translates gets exactly the interface of its
/// signature: as many inputs and as many outputs, in one new edge.
pub proof fn lemma_operation_arity(
    signatures: Map<Seq<char>, SignatureModel>,
    state: TranslationState,
    name: Seq<char>,
)
    ensures
        translate_spec(signatures, state, ExprModel::Operation(name)) is Ok
            <==> signatures.contains_key(name),
        translate_spec(signatures, state, ExprModel::Operation(name)) is Ok ==> {
            let translated = translate_spec(signatures, state, ExprModel::Operation(name))->Ok_0;
            &&& translated.inputs.len() == signatures[name].inputs.len()
            &&& translated.outputs.len() == signatures[name].outputs.len()
            &&& translated.state.graph.edges == state.graph.edges.push(name)
            &&& translated.state.graph.adjacency == state.graph.adjacency.push(
                (translated.inputs, translated.outputs),
            )
        },
{
}

/// Where the parts of a composition up to part `k` have gone together and
/// part `k` translates in its turn, the composition goes on exactly if that
/// part has as many inputs as the part before it has outputs. Otherwise the
/// whole composition fails with an arity mismatch that cites both counts.
pub proof fn lemma_composition_arity(
    signatures: Map<Seq<char>, SignatureModel>,
    state: TranslationState,
    parts: Seq<ExprModel>,
    k: nat,
)
    requires
        1 <= k < parts.len(),
        translate_chain(signatures, state, parts, k) is Ok,
        translate_spec(
            signatures,
            translate_chain(signatures, state, parts, k)->Ok_0.state,
            parts[k as int],
        ) is Ok,
    ensures
        ({
            let before = translate_chain(signatures, state, parts, k)->Ok_0;
            let next = translate_spec(signatures, before.state, parts[k as int])->Ok_0;
            let whole = translate_spec(signatures, state, ExprModel::Composition(parts));
            &&& translate_chain(signatures, state, parts, k + 1) is Ok <==> before.outputs.len()
                == next.inputs.len()
            &&& before.outputs.len() != next.inputs.len() ==> whole is Err && whole->Err_0.kind
                == ErrorModel::CompositionArityMismatch(before.outputs.len(), next.inputs.len())
            &&& whole is Ok ==> before.outputs.len() == next.inputs.len()
        }),
{
    lemma_chain_failure(signatures, state, parts, k + 1, parts.len());
}

/// A composition of no diagrams fails; a composition of one is that one.
pub proof fn lemma_composition_ends(
    signatures: Map<Seq<char>, SignatureModel>,
    state: TranslationState,
    parts: Seq<ExprModel>,
)
    ensures
        parts.len() == 0 ==> translate_spec(signatures, state, ExprModel::Composition(parts))
            == Err::<Translated, Failed>(
            Failed { kind: ErrorModel::EmptyComposition, bindings: state.bindings },
        ),
        parts.len() == 1 ==> translate_spec(signatures, state, ExprModel::Composition(parts))
            == translate_spec(signatures, state, parts[0]),
{
}

} // verus!
