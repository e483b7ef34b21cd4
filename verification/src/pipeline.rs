//! From text to a graph with every wire typed.

use crate::error::{ErrorModel, TranslationError, TranslationErrorKind};
use crate::graph::{
    graph_model, labels_view, node_count, node_label, plain_graph_model, quotient_graph,
    with_edge_names, with_node_names, GraphModel, Label,
};
use crate::inference::{infer_spec, propagate_object_labels};
use crate::labels::{name_of, HObject, HOperation, OperationSignature, SignatureTable};
use crate::model::{translate_spec, SignatureModel, TranslationState};
use crate::parser::{parse_spec, HExprParser, ParseError, ParseFailure};
use crate::table::{lemma_same_names_same_positions, NameTable};
use crate::translate::{signature_models, translate_expr_with_signatures};
use open_hypergraphs::lax::OpenHypergraph;
use vstd::prelude::*;

verus! {

/// Why a text did not become a typed graph.
#[derive(Debug)]
pub enum PipelineError {
    /// The text is no diagram.
    Parse(ParseError),
    /// The diagram has no translation, or its wires cannot be typed.
    Translation(TranslationError),
}

/// The mathematical value of a [`PipelineError`].
pub enum PipelineFailure {
    Parse(ParseFailure),
    Translation(ErrorModel),
}

/// The type names of a signature as labels.
pub open spec fn resolved_labels_of(names: Seq<String>) -> Seq<Label> {
    names.map_values(|name: String| Some(name@))
}

/// The mathematical value of a signature given by type names.
pub open spec fn named_signature_model(signature: OperationSignature<String>) -> SignatureModel {
    SignatureModel {
        inputs: resolved_labels_of(signature.inputs@),
        outputs: resolved_labels_of(signature.outputs@),
    }
}

/// The mathematical value of a table of signatures given by type names.
pub open spec fn named_signature_models(table: SignatureTable<String>) -> Map<
    Seq<char>,
    SignatureModel,
> {
    Map::new(
        |name: Seq<char>| table.contains(name),
        |name: Seq<char>| named_signature_model(table.value(name)),
    )
}

/// What finalisation makes of a graph: its labels without their wrapper,
/// unless a node is left unresolved.
pub open spec fn finalize_spec(graph: GraphModel<Label>) -> Result<GraphModel<Seq<char>>, ErrorModel> {
    if exists|node: int| 0 <= node < graph.nodes.len() && #[trigger] graph.nodes[node] is None {
        Err(ErrorModel::UnresolvedType)
    } else {
        Ok(graph.with_labels(Seq::new(graph.nodes.len(), |node: int| graph.nodes[node]->0)))
    }
}

/// What the whole pipeline makes of a text and a signature table.
pub open spec fn pipeline_spec(text: Seq<char>, signatures: Map<Seq<char>, SignatureModel>) -> Result<
    GraphModel<Seq<char>>,
    PipelineFailure,
> {
    match parse_spec(text) {
        Err(failure) => Err(PipelineFailure::Parse(failure)),
        Ok(expr) => match translate_spec(signatures, TranslationState::initial(), expr) {
            Err(failed) => Err(PipelineFailure::Translation(failed.kind)),
            Ok(translated) => match infer_spec(
                translated.state.graph.with_interface(translated.inputs, translated.outputs),
            ) {
                Err(kind) => Err(PipelineFailure::Translation(kind)),
                Ok(resolved) => match finalize_spec(resolved) {
                    Err(kind) => Err(PipelineFailure::Translation(kind)),
                    Ok(plain) => Ok(plain),
                },
            },
        },
    }
}

impl PipelineError {
    /// Whether this is the failure `failure`, with the message that goes
    /// with it.
    pub open spec fn reports(&self, failure: PipelineFailure) -> bool {
        match (self, failure) {
            (PipelineError::Parse(error), PipelineFailure::Parse(failure)) => error@ == failure,
            (PipelineError::Translation(error), PipelineFailure::Translation(kind)) => {
                error.reports(kind)
            },
            _ => false,
        }
    }
}

impl PipelineError {
    /// The failure as one line of text.
    pub fn to_string(&self) -> (text: String)
        ensures
            text@ == match self {
                PipelineError::Parse(error) => "Parse error: "@ + error@.message(),
                PipelineError::Translation(error) => "Translation error: "@ + error.message@,
            },
    {
        match self {
            PipelineError::Parse(error) => error.to_string(),
            PipelineError::Translation(error) => error.to_string(),
        }
    }
}

/// Wraps each type name as a resolved label.
fn labels_of(names: &Vec<String>) -> (labels: Vec<HObject>)
    ensures
        labels_view(labels@) == resolved_labels_of(names@),
{
    let mut labels: Vec<HObject> = Vec::new();
    let mut i: usize = 0;
    while i < names.len()
        invariant
            i <= names@.len(),
            labels@.len() == i,
            forall|k: int| 0 <= k < i ==> (#[trigger] labels@[k])@ == Some(names@[k]@),
        decreases names@.len() - i,
    {
        labels.push(HObject::Named(names[i].clone()));
        i = i + 1;
    }
    assert(labels_view(labels@) =~= resolved_labels_of(names@));
    labels
}

/// The table whose signatures carry labels in place of type names.
pub fn object_signatures(table: &SignatureTable<String>) -> (objects: SignatureTable<HObject>)
    ensures
        signature_models(objects) == named_signature_models(*table),
{
    let mut entries: Vec<(String, OperationSignature<HObject>)> = Vec::new();
    let mut i: usize = 0;
    while i < table.entries.len()
        invariant
            i <= table.entries@.len(),
            entries@.len() == i,
            forall|k: int|
                0 <= k < i ==> (#[trigger] entries@[k]).0@ == table.entries@[k].0@
                    && crate::translate::signature_model(entries@[k].1) == named_signature_model(
                    table.entries@[k].1,
                ),
        decreases table.entries@.len() - i,
    {
        let signature = OperationSignature::new(
            labels_of(&table.entries[i].1.inputs),
            labels_of(&table.entries[i].1.outputs),
        );
        entries.push((table.entries[i].0.clone(), signature));
        i = i + 1;
    }
    let objects = NameTable { entries };
    proof {
        assert forall|name: Seq<char>|
            objects.contains(name) == table.contains(name) && (table.contains(name)
                ==> crate::translate::signature_model(objects.value(name)) == named_signature_model(
                table.value(name),
            )) by {
            lemma_same_names_same_positions(
                objects.entries@,
                table.entries@,
                name,
                table.entries@.len() as int,
            );
            crate::table::lemma_position_of(table.entries@, name, table.entries@.len() as int);
        }
        assert(signature_models(objects) =~= named_signature_models(*table));
    }
    objects
}

/// Takes the wrapper off the labels of a graph whose wires are all typed,
/// and fails where a wire is left without a type.
pub fn finalize(graph: OpenHypergraph<HObject, HOperation>) -> (result: Result<
    OpenHypergraph<String, String>,
    TranslationError,
>)
    ensures
        match finalize_spec(graph_model(graph)) {
            Ok(plain) => result is Ok && plain_graph_model(result->Ok_0) == plain,
            Err(kind) => result is Err && result->Err_0.reports(kind),
        },
{
    let ghost model = graph_model(graph);
    let count = node_count(&graph);
    let mut node: usize = 0;
    while node < count
        invariant
            node <= count,
            count == model.nodes.len(),
            model == graph_model(graph),
            forall|k: int| 0 <= k < node ==> (#[trigger] model.nodes[k]) is Some,
        decreases count - node,
    {
        match node_label(&graph, node) {
            HObject::Named(_) => {},
            HObject::Unknown => {
                assert(model.nodes[node as int] is None);
                return Err(TranslationError::new(TranslationErrorKind::UnresolvedType));
            },
        }
        node = node + 1;
    }
    proof {
        assert(model.nodes.map_values(|label: Label| name_of(label)) =~= Seq::new(
            model.nodes.len(),
            |k: int| model.nodes[k]->0,
        ));
    }
    Ok(with_edge_names(with_node_names(graph)))
}

/// Whether `after` is `before` with each class of identified nodes made one
/// node.
pub open spec fn is_quotient_of(after: GraphModel<Label>, before: GraphModel<Label>) -> bool {
    exists|table: Seq<usize>| before.collapses_to(after, table)
}

/// Where `quotient` is set, resolves the types of the wires and then makes
/// each class of identified nodes one node; fails where the types conflict.
/// Where it is not set, hands the graph back as it is.
pub fn apply_quotient_if_needed(
    hypergraph: OpenHypergraph<HObject, HOperation>,
    quotient: bool,
) -> (result: Result<OpenHypergraph<HObject, HOperation>, TranslationError>)
    requires
        quotient ==> graph_model(hypergraph).well_formed(),
    ensures
        !quotient ==> result == Ok::<OpenHypergraph<HObject, HOperation>, TranslationError>(
            hypergraph,
        ),
        quotient ==> match infer_spec(graph_model(hypergraph)) {
            Ok(resolved) => result is Ok && is_quotient_of(graph_model(result->Ok_0), resolved),
            Err(kind) => result is Err && result->Err_0.reports(kind),
        },
{
    let mut hypergraph = hypergraph;
    if quotient {
        let ghost before = graph_model(hypergraph);
        match propagate_object_labels(&mut hypergraph) {
            Ok(()) => {},
            Err(error) => {
                return Err(error);
            },
        }
        let ghost resolved = graph_model(hypergraph);
        proof {
            assert forall|a: int, b: int|
                0 <= a < resolved.nodes.len() && 0 <= b < resolved.nodes.len()
                    && resolved.same_class(a, b) implies #[trigger] resolved.nodes[a]
                == #[trigger] resolved.nodes[b] by {
                crate::inference::lemma_class_label_shared(before, a, b, before.nodes.len());
            }
        }
        let _ = quotient_graph(&mut hypergraph);
    }
    Ok(hypergraph)
}

/// Reads a diagram, translates it over the given signatures, resolves the
/// types of its wires and returns the graph with plain names for labels.
pub fn parse(hexpr: &str, signature: SignatureTable<String>) -> (result: Result<
    OpenHypergraph<String, String>,
    PipelineError,
>)
    ensures
        match pipeline_spec(hexpr@, named_signature_models(signature)) {
            Ok(plain) => result is Ok && plain_graph_model(result->Ok_0) == plain,
            Err(failure) => result is Err && result->Err_0.reports(failure),
        },
{
    let expr = match HExprParser::parse_expr(hexpr) {
        Ok(expr) => expr,
        Err(error) => {
            return Err(PipelineError::Parse(error));
        },
    };
    let objects = object_signatures(&signature);
    let mut graph = match translate_expr_with_signatures(&expr, objects) {
        Ok(graph) => graph,
        Err(error) => {
            return Err(PipelineError::Translation(error));
        },
    };
    match propagate_object_labels(&mut graph) {
        Ok(()) => {},
        Err(error) => {
            return Err(PipelineError::Translation(error));
        },
    }
    match finalize(graph) {
        Ok(plain) => Ok(plain),
        Err(error) => Err(PipelineError::Translation(error)),
    }
}

} // verus!
