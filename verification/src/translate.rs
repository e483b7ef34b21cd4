//! From diagram expressions to open hypergraphs.

use crate::ast::{exprs_view, variables_view, Expr, Variable};
use crate::error::{TranslationError, TranslationErrorKind};
use crate::graph::{
    add_edge, add_node, empty_graph, graph_model, ids, labels_view, set_interface, unify_nodes,
    GraphModel, Label,
};
use crate::labels::{HObject, HOperation, OperationSignature, SignatureTable};
use crate::model::{
    fresh_ids, joined, lemma_chain_failure, lemma_row_failure, lemma_translation_extends,
    translate_chain, translate_frobenius_spec, translate_operation_spec, translate_row,
    translate_spec, Failed, SignatureModel, Translated, TranslationState,
};
use crate::table::NameTable;
use crate::wiring::{edges_typed, lemma_edges_typed};
use open_hypergraphs::lax::OpenHypergraph;
use vstd::prelude::*;

verus! {

/// The mathematical value of a signature over possibly unresolved labels.
pub open spec fn signature_model(signature: OperationSignature<HObject>) -> SignatureModel {
    SignatureModel {
        inputs: labels_view(signature.inputs@),
        outputs: labels_view(signature.outputs@),
    }
}

/// The mathematical value of a signature table.
pub open spec fn signature_models(table: SignatureTable<HObject>) -> Map<Seq<char>, SignatureModel> {
    Map::new(
        |name: Seq<char>| table.contains(name),
        |name: Seq<char>| signature_model(table.value(name)),
    )
}

/// The mathematical value of a table of variable bindings.
pub open spec fn bindings_model(table: NameTable<usize>) -> Map<Seq<char>, int> {
    Map::new(|name: Seq<char>| table.contains(name), |name: Seq<char>| table.value(name) as int)
}

/// Whether what a translation step returned and left behind is what the
/// model of translation says.
pub open spec fn outcome_is(
    result: Result<(Vec<usize>, Vec<usize>), TranslationError>,
    graph: GraphModel<Label>,
    bindings: Map<Seq<char>, int>,
    expected: Result<Translated, Failed>,
) -> bool {
    match expected {
        Ok(translated) => {
            &&& result is Ok
            &&& ids(result->Ok_0.0@) == translated.inputs
            &&& ids(result->Ok_0.1@) == translated.outputs
            &&& graph == translated.state.graph
            &&& bindings == translated.state.bindings
        },
        Err(failed) => {
            &&& result is Err
            &&& result->Err_0.reports(failed.kind)
            &&& bindings == failed.bindings
        },
    }
}

/// Translates diagrams over a table of operation signatures. The variable
/// names of one diagram are bound across the whole diagram.
pub struct Translator {
    variables: NameTable<usize>,
    operation_signatures: SignatureTable<HObject>,
}

/// Appends one node for each label, in order, and returns their numbers.
fn add_nodes(graph: &mut OpenHypergraph<HObject, HOperation>, labels: &Vec<HObject>) -> (nodes: Vec<
    usize,
>)
    ensures
        graph_model(*final(graph)) == (GraphModel {
            nodes: graph_model(*old(graph)).nodes + labels_view(labels@),
            ..graph_model(*old(graph))
        }),
        ids(nodes@) == fresh_ids(graph_model(*old(graph)).nodes.len() as int, labels@.len()),
{
    let ghost before = graph_model(*graph);
    let mut nodes: Vec<usize> = Vec::new();
    let mut i: usize = 0;
    while i < labels.len()
        invariant
            i <= labels@.len(),
            graph_model(*graph) == (GraphModel {
                nodes: before.nodes + labels_view(labels@).take(i as int),
                ..before
            }),
            ids(nodes@) == fresh_ids(before.nodes.len() as int, i as nat),
        decreases labels@.len() - i,
    {
        let ghost earlier = nodes@;
        let node = add_node(graph, labels[i].clone());
        nodes.push(node);
        i = i + 1;
        proof {
            assert(node == before.nodes.len() + i - 1);
            assert(ids(nodes@) =~= ids(earlier).push(node as int));
            assert(labels_view(labels@).take(i as int) =~= labels_view(labels@).take(i - 1).push(
                labels@[i - 1]@,
            ));
            assert(graph_model(*graph) =~= (GraphModel {
                nodes: before.nodes + labels_view(labels@).take(i as int),
                ..before
            }));
            assert(ids(nodes@) =~= fresh_ids(before.nodes.len() as int, i as nat));
        }
    }
    proof {
        assert(labels_view(labels@).take(i as int) =~= labels_view(labels@));
    }
    nodes
}

/// Declares `outputs[k]` and `inputs[k]` identical at every position `k`.
fn unify_all(
    graph: &mut OpenHypergraph<HObject, HOperation>,
    outputs: &Vec<usize>,
    inputs: &Vec<usize>,
)
    requires
        outputs@.len() == inputs@.len(),
    ensures
        graph_model(*final(graph)) == joined(graph_model(*old(graph)), ids(outputs@), ids(inputs@)),
{
    let ghost before = graph_model(*graph);
    let mut k: usize = 0;
    proof {
        assert(graph_model(*graph) =~= joined(before, ids(outputs@).take(0), ids(inputs@).take(0)));
    }
    while k < outputs.len()
        invariant
            k <= outputs@.len(),
            outputs@.len() == inputs@.len(),
            graph_model(*graph) == joined(
                before,
                ids(outputs@).take(k as int),
                ids(inputs@).take(k as int),
            ),
        decreases outputs@.len() - k,
    {
        unify_nodes(graph, outputs[k], inputs[k]);
        k = k + 1;
        proof {
            assert(ids(outputs@).take(k as int) =~= ids(outputs@).take(k - 1).push(
                outputs@[k - 1] as int,
            ));
            assert(ids(inputs@).take(k as int) =~= ids(inputs@).take(k - 1).push(
                inputs@[k - 1] as int,
            ));
            assert(graph_model(*graph) =~= joined(
                before,
                ids(outputs@).take(k as int),
                ids(inputs@).take(k as int),
            ));
        }
    }
    proof {
        assert(ids(outputs@).take(k as int) =~= ids(outputs@));
        assert(ids(inputs@).take(k as int) =~= ids(inputs@));
    }
}

impl Translator {
    /// The signatures that this translator knows, by operation name.
    pub closed spec fn signatures(&self) -> Map<Seq<char>, SignatureModel> {
        signature_models(self.operation_signatures)
    }

    /// The node bound to each variable name seen so far.
    pub closed spec fn bindings(&self) -> Map<Seq<char>, int> {
        bindings_model(self.variables)
    }

    /// No variable is bound yet: the translator has translated nothing.
    pub open spec fn is_fresh(&self) -> bool {
        self.bindings() == Map::<Seq<char>, int>::empty()
    }

    /// The state of a translation that has built `graph` so far.
    pub open spec fn state(&self, graph: GraphModel<Label>) -> TranslationState {
        TranslationState { graph, bindings: self.bindings() }
    }

    /// A translator over the given signatures, with no variable bound.
    pub fn new(signatures: SignatureTable<HObject>) -> (translator: Self)
        ensures
            translator.signatures() == signature_models(signatures),
            translator.is_fresh(),
    {
        let translator = Translator { variables: NameTable::new(), operation_signatures: signatures };
        assert(translator.bindings() =~= Map::<Seq<char>, int>::empty());
        translator
    }

    /// Makes an operation known, in place of any of the same name.
    pub fn add_operation(&mut self, name: String, signature: OperationSignature<HObject>)
        ensures
            final(self).signatures() == old(self).signatures().insert(
                name@,
                signature_model(signature),
            ),
            final(self).bindings() == old(self).bindings(),
    {
        self.operation_signatures.insert(name, signature);
        assert(self.signatures() =~= old(self).signatures().insert(
            name@,
            signature_model(signature),
        ));
    }

    /// Translates one diagram into a graph of its own. The inputs and outputs
    /// of the diagram become the interface of the graph. A translator is for
    /// one diagram: the names that it has bound stay bound, after a failure
    /// those that were bound when the translation stopped. The graph that a
    /// fresh translator builds refers to nodes of its own only, and each of
    /// its edges has the arity and the types of its operation.
    pub fn translate(&mut self, expr: &Expr) -> (result: Result<
        OpenHypergraph<HObject, HOperation>,
        TranslationError,
    >)
        ensures
            final(self).signatures() == old(self).signatures(),
            old(self).is_fresh() && result is Ok ==> graph_model(result->Ok_0).well_formed()
                && edges_typed(graph_model(result->Ok_0), old(self).signatures()),
            match translate_spec(
                old(self).signatures(),
                old(self).state(GraphModel::empty()),
                expr@,
            ) {
                Ok(translated) => {
                    &&& result is Ok
                    &&& graph_model(result->Ok_0) == translated.state.graph.with_interface(
                        translated.inputs,
                        translated.outputs,
                    )
                    &&& final(self).bindings() == translated.state.bindings
                },
                Err(failed) => {
                    &&& result is Err
                    &&& result->Err_0.reports(failed.kind)
                    &&& final(self).bindings() == failed.bindings
                },
            },
    {
        let mut graph = empty_graph();
        proof {
            if self.is_fresh() {
                let start = self.state(GraphModel::empty());
                lemma_translation_extends(self.signatures(), start, expr@);
                lemma_edges_typed(self.signatures(), start, expr@);
            }
        }
        match self.translate_expr(expr, &mut graph) {
            Ok((sources, targets)) => {
                set_interface(&mut graph, sources, targets);
                Ok(graph)
            },
            Err(error) => Err(error),
        }
    }

    /// Translates one diagram into `graph`, which may hold others already,
    /// and returns its inputs and outputs.
    fn translate_expr(
        &mut self,
        expr: &Expr,
        graph: &mut OpenHypergraph<HObject, HOperation>,
    ) -> (result: Result<(Vec<usize>, Vec<usize>), TranslationError>)
        ensures
            final(self).signatures() == old(self).signatures(),
            outcome_is(
                result,
                graph_model(*final(graph)),
                final(self).bindings(),
                translate_spec(
                    old(self).signatures(),
                    old(self).state(graph_model(*old(graph))),
                    expr@,
                ),
            ),
        decreases expr, 0nat,
    {
        match expr {
            Expr::Operation(name) => self.translate_operation(name, graph),
            Expr::Frobenius { inputs, outputs } => self.translate_frobenius(inputs, outputs, graph),
            Expr::Composition(parts) => {
                assert(expr@->Composition_0 =~= exprs_view(parts@));
                self.translate_composition(parts, graph)
            },
            Expr::Tensor(parts) => {
                assert(expr@->Tensor_0 =~= exprs_view(parts@));
                self.translate_tensor(parts, graph)
            },
        }
    }

    /// Adds the nodes and the edge of one operation.
    fn translate_operation(
        &mut self,
        name: &String,
        graph: &mut OpenHypergraph<HObject, HOperation>,
    ) -> (result: Result<(Vec<usize>, Vec<usize>), TranslationError>)
        ensures
            *final(self) == *old(self),
            outcome_is(
                result,
                graph_model(*final(graph)),
                final(self).bindings(),
                translate_operation_spec(
                    old(self).signatures(),
                    old(self).state(graph_model(*old(graph))),
                    name@,
                ),
            ),
    {
        let ghost before = graph_model(*graph);
        match self.operation_signatures.get(name.as_str()) {
            None => Err(
                TranslationError::new(TranslationErrorKind::UnknownOperation(name.clone())),
            ),
            Some(signature) => {
                let input_nodes = add_nodes(graph, &signature.inputs);
                let output_nodes = add_nodes(graph, &signature.outputs);
                let sources = input_nodes.clone();
                let targets = output_nodes.clone();
                add_edge(graph, HOperation(name.clone()), sources, targets);
                proof {
                    let model = signature_model(*signature);
                    let first = before.nodes.len() as int;
                    assert(before.nodes + model.inputs + model.outputs =~= (before.nodes
                        + model.inputs) + model.outputs);
                    assert(sources@ =~= input_nodes@);
                    assert(targets@ =~= output_nodes@);
                }
                Ok((input_nodes, output_nodes))
            },
        }
    }

    /// Gives each of `variables` a node of its own, and identifies or binds
    /// the named ones.
    fn bind_occurrences(
        &mut self,
        variables: &Vec<Variable>,
        graph: &mut OpenHypergraph<HObject, HOperation>,
    ) -> (nodes: Vec<usize>)
        ensures
            final(self).signatures() == old(self).signatures(),
            final(self).state(graph_model(*final(graph))) == old(self).state(
                graph_model(*old(graph)),
            ).with_occurrences(variables_view(variables@), variables@.len()),
            ids(nodes@) == fresh_ids(
                graph_model(*old(graph)).nodes.len() as int,
                variables@.len(),
            ),
            graph_model(*final(graph)).nodes.len() == graph_model(*old(graph)).nodes.len()
                + variables@.len(),
    {
        let ghost start = self.state(graph_model(*graph));
        let ghost views = variables_view(variables@);
        let mut nodes: Vec<usize> = Vec::new();
        let mut i: usize = 0;
        while i < variables.len()
            invariant
                i <= variables@.len(),
                views == variables_view(variables@),
                self.signatures() == old(self).signatures(),
                self.state(graph_model(*graph)) == start.with_occurrences(views, i as nat),
                ids(nodes@) == fresh_ids(start.graph.nodes.len() as int, i as nat),
                graph_model(*graph).nodes.len() == start.graph.nodes.len() + i,
            decreases variables@.len() - i,
        {
            let ghost current = self.state(graph_model(*graph));
            let ghost earlier = nodes@;
            let node = add_node(graph, HObject::Unknown);
            match &variables[i] {
                Variable::Named(name) => {
                    let found: Option<usize> = match self.variables.get(name.as_str()) {
                        Some(existing) => Some(*existing),
                        None => None,
                    };
                    match found {
                        Some(existing) => {
                            unify_nodes(graph, node, existing);
                        },
                        None => {
                            self.variables.insert(name.clone(), node);
                            assert(self.bindings() =~= current.bindings.insert(name@, node as int));
                        },
                    }
                },
                Variable::Anonymous => {},
            }
            nodes.push(node);
            i = i + 1;
            proof {
                assert(views[i - 1] == variables@[i - 1]@);
                assert(self.state(graph_model(*graph)) =~= current.with_occurrence(views[i - 1]));
                assert(ids(nodes@) =~= ids(earlier).push(node as int));
                assert(ids(nodes@) =~= fresh_ids(start.graph.nodes.len() as int, i as nat));
            }
        }
        nodes
    }

    /// Adds the nodes of one Frobenius node: inputs first, then outputs.
    fn translate_frobenius(
        &mut self,
        inputs: &Vec<Variable>,
        outputs: &Vec<Variable>,
        graph: &mut OpenHypergraph<HObject, HOperation>,
    ) -> (result: Result<(Vec<usize>, Vec<usize>), TranslationError>)
        ensures
            final(self).signatures() == old(self).signatures(),
            outcome_is(
                result,
                graph_model(*final(graph)),
                final(self).bindings(),
                Ok(
                    translate_frobenius_spec(
                        old(self).state(graph_model(*old(graph))),
                        variables_view(inputs@),
                        variables_view(outputs@),
                    ),
                ),
            ),
    {
        let input_nodes = self.bind_occurrences(inputs, graph);
        let output_nodes = self.bind_occurrences(outputs, graph);
        Ok((input_nodes, output_nodes))
    }

    /// Translates the parts one after the other and identifies the outputs
    /// of each with the inputs of the next.
    fn translate_composition(
        &mut self,
        parts: &Vec<Expr>,
        graph: &mut OpenHypergraph<HObject, HOperation>,
    ) -> (result: Result<(Vec<usize>, Vec<usize>), TranslationError>)
        ensures
            final(self).signatures() == old(self).signatures(),
            outcome_is(
                result,
                graph_model(*final(graph)),
                final(self).bindings(),
                translate_chain(
                    old(self).signatures(),
                    old(self).state(graph_model(*old(graph))),
                    exprs_view(parts@),
                    parts@.len(),
                ),
            ),
        decreases parts, 1nat,
    {
        let ghost signatures = self.signatures();
        let ghost start = self.state(graph_model(*graph));
        let ghost views = exprs_view(parts@);
        if parts.len() == 0 {
            return Err(TranslationError::new(TranslationErrorKind::EmptyComposition));
        }
        let (current_inputs, mut current_outputs) = match self.translate_expr(&parts[0], graph) {
            Ok(interface) => interface,
            Err(error) => {
                proof {
                    lemma_chain_failure(signatures, start, views, 1, parts@.len());
                }
                return Err(error);
            },
        };
        let mut i: usize = 1;
        while i < parts.len()
            invariant
                1 <= i <= parts@.len(),
                views == exprs_view(parts@),
                signatures == old(self).signatures(),
                self.signatures() == signatures,
                start == old(self).state(graph_model(*old(graph))),
                translate_chain(signatures, start, views, i as nat) == Ok::<
                    Translated,
                    Failed,
                >(
                    Translated {
                        state: self.state(graph_model(*graph)),
                        inputs: ids(current_inputs@),
                        outputs: ids(current_outputs@),
                    },
                ),
            decreases parts@.len() - i,
        {
            match self.translate_expr(&parts[i], graph) {
                Err(error) => {
                    proof {
                        lemma_chain_failure(
                            signatures,
                            start,
                            views,
                            (i + 1) as nat,
                            parts@.len(),
                        );
                    }
                    return Err(error);
                },
                Ok((next_inputs, next_outputs)) => {
                    if current_outputs.len() != next_inputs.len() {
                        proof {
                            lemma_chain_failure(
                                signatures,
                                start,
                                views,
                                (i + 1) as nat,
                                parts@.len(),
                            );
                        }
                        return Err(
                            TranslationError::new(
                                TranslationErrorKind::CompositionArityMismatch(
                                    current_outputs.len(),
                                    next_inputs.len(),
                                ),
                            ),
                        );
                    }
                    unify_all(graph, &current_outputs, &next_inputs);
                    current_outputs = next_outputs;
                },
            }
            i = i + 1;
        }
        Ok((current_inputs, current_outputs))
    }

    /// Translates the parts one after the other and lays their interfaces
    /// end to end.
    fn translate_tensor(
        &mut self,
        parts: &Vec<Expr>,
        graph: &mut OpenHypergraph<HObject, HOperation>,
    ) -> (result: Result<(Vec<usize>, Vec<usize>), TranslationError>)
        ensures
            final(self).signatures() == old(self).signatures(),
            outcome_is(
                result,
                graph_model(*final(graph)),
                final(self).bindings(),
                translate_row(
                    old(self).signatures(),
                    old(self).state(graph_model(*old(graph))),
                    exprs_view(parts@),
                    parts@.len(),
                ),
            ),
        decreases parts, 1nat,
    {
        let ghost signatures = self.signatures();
        let ghost start = self.state(graph_model(*graph));
        let ghost views = exprs_view(parts@);
        let mut all_inputs: Vec<usize> = Vec::new();
        let mut all_outputs: Vec<usize> = Vec::new();
        let mut i: usize = 0;
        proof {
            assert(ids(all_inputs@) =~= Seq::<int>::empty());
            assert(ids(all_outputs@) =~= Seq::<int>::empty());
        }
        while i < parts.len()
            invariant
                i <= parts@.len(),
                views == exprs_view(parts@),
                signatures == old(self).signatures(),
                self.signatures() == signatures,
                start == old(self).state(graph_model(*old(graph))),
                translate_row(signatures, start, views, i as nat) == Ok::<Translated, Failed>(
                    Translated {
                        state: self.state(graph_model(*graph)),
                        inputs: ids(all_inputs@),
                        outputs: ids(all_outputs@),
                    },
                ),
            decreases parts@.len() - i,
        {
            match self.translate_expr(&parts[i], graph) {
                Err(error) => {
                    proof {
                        lemma_row_failure(
                            signatures,
                            start,
                            views,
                            (i + 1) as nat,
                            parts@.len(),
                        );
                    }
                    return Err(error);
                },
                Ok((mut inputs, mut outputs)) => {
                    let ghost inputs_before = all_inputs@;
                    let ghost outputs_before = all_outputs@;
                    let ghost new_inputs = inputs@;
                    let ghost new_outputs = outputs@;
                    all_inputs.append(&mut inputs);
                    all_outputs.append(&mut outputs);
                    proof {
                        assert(ids(all_inputs@) =~= ids(inputs_before) + ids(new_inputs));
                        assert(ids(all_outputs@) =~= ids(outputs_before) + ids(new_outputs));
                    }
                },
            }
            i = i + 1;
        }
        Ok((all_inputs, all_outputs))
    }
}

/// Translates one diagram over the given signatures, with no variable bound
/// beforehand. The graph refers to nodes of its own only, and each of its
/// edges has the arity and the types of its operation.
pub fn translate_expr_with_signatures(expr: &Expr, signatures: SignatureTable<HObject>) -> (result:
    Result<OpenHypergraph<HObject, HOperation>, TranslationError>)
    ensures
        result is Ok ==> graph_model(result->Ok_0).well_formed() && edges_typed(
            graph_model(result->Ok_0),
            signature_models(signatures),
        ),
        match translate_spec(signature_models(signatures), TranslationState::initial(), expr@) {
            Ok(translated) => result is Ok && graph_model(result->Ok_0)
                == translated.state.graph.with_interface(translated.inputs, translated.outputs),
            Err(failed) => result is Err && result->Err_0.reports(failed.kind),
        },
{
    let mut translator = Translator::new(signatures);
    translator.translate(expr)
}

} // verus!
