//! What translation does, stated over mathematical values.

use crate::ast::{ExprModel, VariableModel};
use crate::error::ErrorModel;
use crate::graph::{GraphModel, Label};
use vstd::prelude::*;

verus! {

/// The mathematical value of an operation's signature.
pub struct SignatureModel {
    pub inputs: Seq<Label>,
    pub outputs: Seq<Label>,
}

/// The state that translation threads through a diagram: the graph built so
/// far and the node bound to each variable name seen so far.
#[verifier::ext_equal]
pub struct TranslationState {
    pub graph: GraphModel<Label>,
    pub bindings: Map<Seq<char>, int>,
}

/// The outcome of translating one diagram: the state after it, and the
/// diagram's input and output wires, in order.
#[verifier::ext_equal]
pub struct Translated {
    pub state: TranslationState,
    pub inputs: Seq<int>,
    pub outputs: Seq<int>,
}

/// The outcome of a translation that fails: what went wrong, and the names
/// that are bound when it stops.
#[verifier::ext_equal]
pub struct Failed {
    pub kind: ErrorModel,
    pub bindings: Map<Seq<char>, int>,
}

/// The numbers `first`, `first + 1`, ... of `count` consecutive nodes.
pub open spec fn fresh_ids(first: int, count: nat) -> Seq<int> {
    Seq::new(count, |i: int| first + i)
}

/// `earlier` is the beginning of `later`.
pub open spec fn starts<T>(earlier: Seq<T>, later: Seq<T>) -> bool {
    &&& earlier.len() <= later.len()
    &&& forall|i: int| 0 <= i < earlier.len() ==> #[trigger] earlier[i] == later[i]
}

impl TranslationState {
    /// Every node that the graph or a binding refers to exists.
    pub open spec fn well_formed(self) -> bool {
        &&& self.graph.well_formed()
        &&& forall|name: Seq<char>|
            self.bindings.contains_key(name) ==> 0 <= #[trigger] self.bindings[name]
                < self.graph.nodes.len()
    }

    /// This state has come from `earlier` by adding to it: nothing that the
    /// graph held has been changed or taken away, and every name that was
    /// bound is still bound to the same node.
    pub open spec fn extends(self, earlier: Self) -> bool {
        &&& starts(earlier.graph.nodes, self.graph.nodes)
        &&& starts(earlier.graph.edges, self.graph.edges)
        &&& starts(earlier.graph.adjacency, self.graph.adjacency)
        &&& starts(earlier.graph.left, self.graph.left)
        &&& starts(earlier.graph.right, self.graph.right)
        &&& self.graph.sources == earlier.graph.sources
        &&& self.graph.targets == earlier.graph.targets
        &&& forall|name: Seq<char>| #[trigger]
            earlier.bindings.contains_key(name) ==> self.bindings.contains_key(name)
                && self.bindings[name] == earlier.bindings[name]
    }

    /// The state before anything is translated.
    pub open spec fn initial() -> Self {
        TranslationState { graph: GraphModel::empty(), bindings: Map::empty() }
    }

    /// The state with another graph.
    pub open spec fn with_graph(self, graph: GraphModel<Label>) -> Self {
        TranslationState { graph, ..self }
    }

    /// One more occurrence of a variable: a new unresolved node, which a
    /// name seen before identifies with the node bound to it, and to which
    /// a name not seen before is bound. An anonymous variable does neither.
    pub open spec fn with_occurrence(self, variable: VariableModel) -> Self {
        let node = self.graph.nodes.len() as int;
        let graph = self.graph.with_node(None);
        match variable {
            VariableModel::Named(name) => if self.bindings.contains_key(name) {
                TranslationState {
                    graph: graph.with_unified(node, self.bindings[name]),
                    bindings: self.bindings,
                }
            } else {
                TranslationState { graph, bindings: self.bindings.insert(name, node) }
            },
            VariableModel::Anonymous => TranslationState { graph, bindings: self.bindings },
        }
    }

    /// The occurrences of the first `upto` of `variables`, in order.
    pub open spec fn with_occurrences(self, variables: Seq<VariableModel>, upto: nat) -> Self
        decreases upto,
    {
        if upto == 0 {
            self
        } else {
            self.with_occurrences(variables, (upto - 1) as nat).with_occurrence(
                variables[upto - 1],
            )
        }
    }
}

/// An operation: fresh nodes for its inputs and outputs, labelled by its
/// signature, and one edge between them. Fails on a name without signature.
pub open spec fn translate_operation_spec(
    signatures: Map<Seq<char>, SignatureModel>,
    state: TranslationState,
    name: Seq<char>,
) -> Result<Translated, Failed> {
    if !signatures.contains_key(name) {
        Err(Failed { kind: ErrorModel::UnknownOperation(name), bindings: state.bindings })
    } else {
        let signature = signatures[name];
        let first = state.graph.nodes.len() as int;
        let inputs = fresh_ids(first, signature.inputs.len());
        let outputs = fresh_ids(first + signature.inputs.len(), signature.outputs.len());
        let graph = GraphModel {
            nodes: state.graph.nodes + signature.inputs + signature.outputs,
            ..state.graph
        }.with_edge(name, inputs, outputs);
        Ok(Translated { state: state.with_graph(graph), inputs, outputs })
    }
}

/// A Frobenius node: one fresh unresolved node for each occurrence of a
/// variable, inputs first, and no edge.
pub open spec fn translate_frobenius_spec(
    state: TranslationState,
    inputs: Seq<VariableModel>,
    outputs: Seq<VariableModel>,
) -> Translated {
    let first = state.graph.nodes.len() as int;
    let after_inputs = state.with_occurrences(inputs, inputs.len());
    Translated {
        state: after_inputs.with_occurrences(outputs, outputs.len()),
        inputs: fresh_ids(first, inputs.len()),
        outputs: fresh_ids(first + inputs.len(), outputs.len()),
    }
}

/// The graph with `outputs[i]` and `inputs[i]` declared identical at every
/// position, in order.
pub open spec fn joined(graph: GraphModel<Label>, outputs: Seq<int>, inputs: Seq<int>) -> GraphModel<
    Label,
> {
    GraphModel { left: graph.left + outputs, right: graph.right + inputs, ..graph }
}

/// What translating a diagram gives, starting in a given state.
pub open spec fn translate_spec(
    signatures: Map<Seq<char>, SignatureModel>,
    state: TranslationState,
    expr: ExprModel,
) -> Result<Translated, Failed>
    decreases expr, 0nat,
{
    match expr {
        ExprModel::Operation(name) => translate_operation_spec(signatures, state, name),
        ExprModel::Frobenius { inputs, outputs } => Ok(
            translate_frobenius_spec(state, inputs, outputs),
        ),
        ExprModel::Composition(parts) => translate_chain(signatures, state, parts, parts.len()),
        ExprModel::Tensor(parts) => translate_row(signatures, state, parts, parts.len()),
    }
}

/// The sequential composition of the first `upto` of `parts`: each is
/// translated in the state that the one before left, and its inputs are
/// identified with the outputs of the one before, position by position.
pub open spec fn translate_chain(
    signatures: Map<Seq<char>, SignatureModel>,
    state: TranslationState,
    parts: Seq<ExprModel>,
    upto: nat,
) -> Result<Translated, Failed>
    decreases parts, upto,
{
    if upto == 0 || upto > parts.len() {
        Err(Failed { kind: ErrorModel::EmptyComposition, bindings: state.bindings })
    } else if upto == 1 {
        translate_spec(signatures, state, parts[0])
    } else {
        match translate_chain(signatures, state, parts, (upto - 1) as nat) {
            Err(error) => Err(error),
            Ok(before) => match translate_spec(signatures, before.state, parts[upto - 1]) {
                Err(error) => Err(error),
                Ok(next) => if before.outputs.len() != next.inputs.len() {
                    Err(
                        Failed {
                            kind: ErrorModel::CompositionArityMismatch(
                                before.outputs.len(),
                                next.inputs.len(),
                            ),
                            bindings: next.state.bindings,
                        },
                    )
                } else {
                    Ok(
                        Translated {
                            state: next.state.with_graph(
                                joined(next.state.graph, before.outputs, next.inputs),
                            ),
                            inputs: before.inputs,
                            outputs: next.outputs,
                        },
                    )
                },
            },
        }
    }
}

/// The parallel placement of the first `upto` of `parts`: each is translated
/// in the state that the one before left, nothing is identified, and the
/// interfaces are laid end to end.
pub open spec fn translate_row(
    signatures: Map<Seq<char>, SignatureModel>,
    state: TranslationState,
    parts: Seq<ExprModel>,
    upto: nat,
) -> Result<Translated, Failed>
    decreases parts, upto,
{
    if upto == 0 || upto > parts.len() {
        Ok(Translated { state, inputs: Seq::empty(), outputs: Seq::empty() })
    } else {
        match translate_row(signatures, state, parts, (upto - 1) as nat) {
            Err(error) => Err(error),
            Ok(before) => match translate_spec(signatures, before.state, parts[upto - 1]) {
                Err(error) => Err(error),
                Ok(next) => Ok(
                    Translated {
                        state: next.state,
                        inputs: before.inputs + next.inputs,
                        outputs: before.outputs + next.outputs,
                    },
                ),
            },
        }
    }
}

/// Once a part of a composition fails, the composition fails alike.
pub proof fn lemma_chain_failure(
    signatures: Map<Seq<char>, SignatureModel>,
    state: TranslationState,
    parts: Seq<ExprModel>,
    at: nat,
    upto: nat,
)
    requires
        1 <= at <= upto <= parts.len(),
    ensures
        translate_chain(signatures, state, parts, at) is Err ==> translate_chain(
            signatures,
            state,
            parts,
            upto,
        ) == translate_chain(signatures, state, parts, at),
    decreases upto,
{
    if at < upto {
        lemma_chain_failure(signatures, state, parts, at, (upto - 1) as nat);
    }
}

/// Once a part of a tensor fails, the tensor fails alike.
pub proof fn lemma_row_failure(
    signatures: Map<Seq<char>, SignatureModel>,
    state: TranslationState,
    parts: Seq<ExprModel>,
    at: nat,
    upto: nat,
)
    requires
        at <= upto <= parts.len(),
    ensures
        translate_row(signatures, state, parts, at) is Err ==> translate_row(
            signatures,
            state,
            parts,
            upto,
        ) == translate_row(signatures, state, parts, at),
    decreases upto,
{
    if at < upto {
        lemma_row_failure(signatures, state, parts, at, (upto - 1) as nat);
    }
}

/// Occurrences of variables add to a well-formed state and leave it well
/// formed.
pub proof fn lemma_occurrences_extend(
    state: TranslationState,
    variables: Seq<VariableModel>,
    upto: nat,
)
    requires
        state.well_formed(),
        upto <= variables.len(),
    ensures
        state.with_occurrences(variables, upto).well_formed(),
        state.with_occurrences(variables, upto).extends(state),
        state.with_occurrences(variables, upto).graph.nodes.len() == state.graph.nodes.len() + upto,
        state.with_occurrences(variables, upto).graph.edges == state.graph.edges,
        state.with_occurrences(variables, upto).graph.adjacency == state.graph.adjacency,
    decreases upto,
{
    if upto > 0 {
        lemma_occurrences_extend(state, variables, (upto - 1) as nat);
        let before = state.with_occurrences(variables, (upto - 1) as nat);
        let after = before.with_occurrence(variables[upto - 1]);
        assert(after.well_formed());
        assert(after.extends(before));
    }
}

/// Translation adds to a well-formed state and leaves it well formed; the
/// interface that it returns is made of nodes of the graph.
pub proof fn lemma_translation_extends(
    signatures: Map<Seq<char>, SignatureModel>,
    state: TranslationState,
    expr: ExprModel,
)
    requires
        state.well_formed(),
    ensures
        translate_spec(signatures, state, expr) is Ok ==> {
            let translated = translate_spec(signatures, state, expr)->Ok_0;
            &&& translated.state.well_formed()
            &&& translated.state.extends(state)
            &&& translated.state.graph.holds(translated.inputs)
            &&& translated.state.graph.holds(translated.outputs)
        },
    decreases expr, 0nat,
{
    match expr {
        ExprModel::Operation(name) => {},
        ExprModel::Frobenius { inputs, outputs } => {
            lemma_occurrences_extend(state, inputs, inputs.len());
            let middle = state.with_occurrences(inputs, inputs.len());
            lemma_occurrences_extend(middle, outputs, outputs.len());
        },
        ExprModel::Composition(parts) => {
            lemma_chain_extends(signatures, state, parts, parts.len());
        },
        ExprModel::Tensor(parts) => {
            lemma_row_extends(signatures, state, parts, parts.len());
        },
    }
}

/// What `lemma_translation_extends` says, of a composition.
pub proof fn lemma_chain_extends(
    signatures: Map<Seq<char>, SignatureModel>,
    state: TranslationState,
    parts: Seq<ExprModel>,
    upto: nat,
)
    requires
        state.well_formed(),
    ensures
        translate_chain(signatures, state, parts, upto) is Ok ==> {
            let translated = translate_chain(signatures, state, parts, upto)->Ok_0;
            &&& translated.state.well_formed()
            &&& translated.state.extends(state)
            &&& translated.state.graph.holds(translated.inputs)
            &&& translated.state.graph.holds(translated.outputs)
        },
    decreases parts, upto,
{
    if upto == 0 || upto > parts.len() {
    } else if upto == 1 {
        lemma_translation_extends(signatures, state, parts[0]);
    } else {
        lemma_chain_extends(signatures, state, parts, (upto - 1) as nat);
        if translate_chain(signatures, state, parts, (upto - 1) as nat) is Ok {
            let before = translate_chain(signatures, state, parts, (upto - 1) as nat)->Ok_0;
            lemma_translation_extends(signatures, before.state, parts[upto - 1]);
            if translate_chain(signatures, state, parts, upto) is Ok {
                let next = translate_spec(signatures, before.state, parts[upto - 1])->Ok_0;
                let after = translate_chain(signatures, state, parts, upto)->Ok_0;
                assert(next.state.extends(before.state));
                assert(after.state.extends(next.state));
                assert(after.state.graph.holds(before.outputs));
                assert(after.state.graph.holds(before.inputs));
                assert(after.state.well_formed());
            }
        }
    }
}

/// What `lemma_translation_extends` says, of a tensor.
pub proof fn lemma_row_extends(
    signatures: Map<Seq<char>, SignatureModel>,
    state: TranslationState,
    parts: Seq<ExprModel>,
    upto: nat,
)
    requires
        state.well_formed(),
    ensures
        translate_row(signatures, state, parts, upto) is Ok ==> {
            let translated = translate_row(signatures, state, parts, upto)->Ok_0;
            &&& translated.state.well_formed()
            &&& translated.state.extends(state)
            &&& translated.state.graph.holds(translated.inputs)
            &&& translated.state.graph.holds(translated.outputs)
        },
    decreases parts, upto,
{
    if upto == 0 || upto > parts.len() {
    } else {
        lemma_row_extends(signatures, state, parts, (upto - 1) as nat);
        if translate_row(signatures, state, parts, (upto - 1) as nat) is Ok {
            let before = translate_row(signatures, state, parts, (upto - 1) as nat)->Ok_0;
            lemma_translation_extends(signatures, before.state, parts[upto - 1]);
            if translate_row(signatures, state, parts, upto) is Ok {
                let next = translate_spec(signatures, before.state, parts[upto - 1])->Ok_0;
                assert(next.state.extends(before.state));
                assert(next.state.graph.holds(before.outputs));
                assert(next.state.graph.holds(before.inputs));
            }
        }
    }
}

} // verus!
