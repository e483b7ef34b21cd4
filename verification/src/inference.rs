//! Resolution of wire types across identified wires.

use crate::error::{ErrorModel, TranslationError, TranslationErrorKind};
use crate::classes::lemma_same_class_equivalence;
use crate::graph::{
    coequalizer_table, graph_model, node_count, node_label, set_node_label, GraphModel, Label,
};
use crate::labels::{HObject, HOperation};
use open_hypergraphs::lax::OpenHypergraph;
use vstd::prelude::*;

verus! {

/// The first type name found on the nodes below `upto` that are identified
/// with `node`, if there is one.
pub open spec fn class_label(graph: GraphModel<Label>, node: int, upto: nat) -> Label
    decreases upto,
{
    if upto == 0 {
        None
    } else {
        let earlier = class_label(graph, node, (upto - 1) as nat);
        if earlier is Some {
            earlier
        } else if graph.same_class(node, upto - 1) && graph.nodes[upto - 1] is Some {
            graph.nodes[upto - 1]
        } else {
            None
        }
    }
}

/// The type that resolution gives to `node`: the first type name found in
/// its class, and none where its class has no type name at all.
pub open spec fn resolved_label(graph: GraphModel<Label>, node: int) -> Label {
    class_label(graph, node, graph.nodes.len())
}

/// `node` carries a type name that differs from the first type name found
/// in its class.
pub open spec fn conflict_at(graph: GraphModel<Label>, node: int) -> bool {
    &&& graph.nodes[node] is Some
    &&& class_label(graph, node, node as nat) is Some
    &&& class_label(graph, node, node as nat) != graph.nodes[node]
}

/// The lowest node below `upto` at which there is a conflict.
pub open spec fn first_conflict(graph: GraphModel<Label>, upto: nat) -> Option<int>
    decreases upto,
{
    if upto == 0 {
        None
    } else {
        match first_conflict(graph, (upto - 1) as nat) {
            Some(node) => Some(node),
            None => if conflict_at(graph, upto - 1) {
                Some(upto - 1)
            } else {
                None
            },
        }
    }
}

/// The labels of the graph after resolution.
pub open spec fn resolved_labels(graph: GraphModel<Label>) -> Seq<Label> {
    Seq::new(graph.nodes.len(), |node: int| resolved_label(graph, node))
}

/// What resolution makes of a graph: every node gets the type of its class,
/// unless some class holds two type names. Then resolution fails at the
/// lowest node whose type name differs from the first one of its class, and
/// names both, the first one first.
pub open spec fn infer_spec(graph: GraphModel<Label>) -> Result<GraphModel<Label>, ErrorModel> {
    match first_conflict(graph, graph.nodes.len()) {
        Some(node) => Err(
            ErrorModel::TypeConflict(
                class_label(graph, node, node as nat)->0,
                graph.nodes[node]->0,
            ),
        ),
        None => Ok(graph.with_labels(resolved_labels(graph))),
    }
}

/// The label of a class below a bound is the label of the first node of
/// the class below that bound that has one.
pub proof fn lemma_class_label_first(graph: GraphModel<Label>, node: int, upto: nat)
    ensures
        match class_label(graph, node, upto) {
            Some(name) => exists|first: int|
                {
                    &&& 0 <= first < upto
                    &&& graph.same_class(node, first)
                    &&& #[trigger] graph.nodes[first] == Some(name)
                    &&& class_label(graph, node, first as nat) is None
                },
            None => forall|other: int|
                0 <= other < upto && graph.same_class(node, other) ==> (
                #[trigger] graph.nodes[other]) is None,
        },
    decreases upto,
{
    if upto > 0 {
        lemma_class_label_first(graph, node, (upto - 1) as nat);
        let earlier = class_label(graph, node, (upto - 1) as nat);
        if earlier is Some {
        } else if graph.same_class(node, upto - 1) && graph.nodes[upto - 1] is Some {
            assert(graph.nodes[upto - 1] == Some(graph.nodes[upto - 1]->0));
        } else {
        }
    }
}

/// A label found below some bound is the label below every higher bound.
pub proof fn lemma_class_label_stays(graph: GraphModel<Label>, node: int, at: nat, upto: nat)
    requires
        at <= upto,
        class_label(graph, node, at) is Some,
    ensures
        class_label(graph, node, upto) == class_label(graph, node, at),
    decreases upto,
{
    if at < upto {
        lemma_class_label_stays(graph, node, at, (upto - 1) as nat);
    }
}

/// Identified nodes have the same class label.
pub proof fn lemma_class_label_shared(graph: GraphModel<Label>, a: int, b: int, upto: nat)
    requires
        graph.same_class(a, b),
    ensures
        class_label(graph, a, upto) == class_label(graph, b, upto),
    decreases upto,
{
    if upto > 0 {
        lemma_class_label_shared(graph, a, b, (upto - 1) as nat);
        lemma_same_class_equivalence::<Label>(graph, a, b, upto - 1);
        lemma_same_class_equivalence::<Label>(graph, b, a, upto - 1);
    }
}

/// The lowest conflict is a conflict, and lies below the bound.
pub proof fn lemma_first_conflict(graph: GraphModel<Label>, upto: nat)
    ensures
        match first_conflict(graph, upto) {
            Some(node) => 0 <= node < upto && conflict_at(graph, node),
            None => forall|node: int| 0 <= node < upto ==> !#[trigger] conflict_at(graph, node),
        },
    decreases upto,
{
    if upto > 0 {
        lemma_first_conflict(graph, (upto - 1) as nat);
    }
}

/// Two nodes of one class that carry different type names.
pub open spec fn clash(graph: GraphModel<Label>, a: int, b: int) -> bool {
    &&& 0 <= a < graph.nodes.len()
    &&& 0 <= b < graph.nodes.len()
    &&& graph.same_class(a, b)
    &&& graph.nodes[a] is Some
    &&& graph.nodes[b] is Some
    &&& graph.nodes[a] != graph.nodes[b]
}

/// Resolution fails exactly where two identified nodes, however they came
/// to be identified and in whichever order, carry different type names. The
/// failure is then a type conflict that names two different types, both
/// found on nodes of one class.
pub proof fn lemma_conflict_iff_clash(graph: GraphModel<Label>)
    ensures
        infer_spec(graph) is Err <==> exists|a: int, b: int| clash(graph, a, b),
        infer_spec(graph) is Err ==> exists|a: int, b: int| #[trigger]
            clash(graph, a, b) && infer_spec(graph) == Err::<GraphModel<Label>, ErrorModel>(
                ErrorModel::TypeConflict(graph.nodes[a]->0, graph.nodes[b]->0),
            ),
{
    let count = graph.nodes.len();
    lemma_first_conflict(graph, count);
    if infer_spec(graph) is Err {
        let node = first_conflict(graph, count)->0;
        lemma_class_label_first(graph, node, node as nat);
        let first = choose|first: int|
            {
                &&& 0 <= first < node
                &&& graph.same_class(node, first)
                &&& #[trigger] graph.nodes[first] == class_label(graph, node, node as nat)
                &&& class_label(graph, node, first as nat) is None
            };
        lemma_same_class_equivalence::<Label>(graph, node, first, first);
        assert(clash(graph, first, node));
    }
    if exists|a: int, b: int| clash(graph, a, b) {
        let (a, b) = choose|a: int, b: int| clash(graph, a, b);
        lemma_class_label_shared(graph, a, b, count);
        lemma_clash_is_found(graph, a);
        lemma_clash_is_found(graph, b);
    }
}

/// A node whose type name is not the label of its class is a conflict.
proof fn lemma_clash_is_found(graph: GraphModel<Label>, node: int)
    requires
        0 <= node < graph.nodes.len(),
        graph.nodes[node] is Some,
    ensures
        resolved_label(graph, node) is Some,
        resolved_label(graph, node) != graph.nodes[node] ==> conflict_at(graph, node),
{
    lemma_same_class_equivalence::<Label>(graph, node, node, node);
    assert(class_label(graph, node, (node + 1) as nat) is Some);
    lemma_class_label_stays(graph, node, (node + 1) as nat, graph.nodes.len());
}

/// Resolution settles: what it has resolved it leaves as it is, so a second
/// run gives the labels of the first.
pub proof fn lemma_inference_idempotent(graph: GraphModel<Label>)
    requires
        infer_spec(graph) is Ok,
    ensures
        infer_spec(infer_spec(graph)->Ok_0) == infer_spec(graph),
{
    let count = graph.nodes.len();
    let resolved = infer_spec(graph)->Ok_0;
    assert forall|node: int, upto: nat| 0 <= node < count && upto <= count implies ({
        let label = #[trigger] class_label(resolved, node, upto);
        &&& label is None || label == resolved_label(graph, node)
        &&& node < upto ==> label == resolved_label(graph, node)
    }) by {
        lemma_settled_class_label(graph, node, upto);
    }
    assert(first_conflict(resolved, count) is None) by {
        lemma_first_conflict(resolved, count);
    }
    assert(resolved_labels(resolved) =~= resolved_labels(graph));
}

/// In a resolved graph, the label found for a class is the label that
/// resolution gave it.
proof fn lemma_settled_class_label(graph: GraphModel<Label>, node: int, upto: nat)
    requires
        0 <= node < graph.nodes.len(),
        upto <= graph.nodes.len(),
    ensures
        ({
            let label = class_label(graph.with_labels(resolved_labels(graph)), node, upto);
            &&& label is None || label == resolved_label(graph, node)
            &&& node < upto ==> label == resolved_label(graph, node)
        }),
    decreases upto,
{
    if upto > 0 {
        lemma_settled_class_label(graph, node, (upto - 1) as nat);
        let resolved = graph.with_labels(resolved_labels(graph));
        if resolved.same_class(node, upto - 1) {
            assert(graph.same_class(node, upto - 1));
            lemma_class_label_shared(graph, node, upto - 1, graph.nodes.len());
        }
        lemma_same_class_equivalence::<Label>(graph, node, node, node);
    }
}

/// A conflict found below some bound is found below every higher bound.
proof fn lemma_first_conflict_stays(graph: GraphModel<Label>, at: nat, upto: nat)
    requires
        at <= upto,
        first_conflict(graph, at) is Some,
    ensures
        first_conflict(graph, upto) == first_conflict(graph, at),
    decreases upto,
{
    if at < upto {
        lemma_first_conflict_stays(graph, at, (upto - 1) as nat);
    }
}

/// Gives every wire the type of the wires it is identified with. Fails, and
/// leaves the graph as it was, where two identified wires carry different
/// type names.
pub fn propagate_object_labels(graph: &mut OpenHypergraph<HObject, HOperation>) -> (result: Result<
    (),
    TranslationError,
>)
    requires
        graph_model(*old(graph)).pairs_in_range(),
    ensures
        match infer_spec(graph_model(*old(graph))) {
            Ok(resolved) => result is Ok && graph_model(*final(graph)) == resolved,
            Err(kind) => result is Err && result->Err_0.reports(kind) && graph_model(*final(graph))
                == graph_model(*old(graph)),
        },
{
    let ghost model = graph_model(*graph);
    let table = coequalizer_table(graph);
    let count = node_count(graph);
    let mut best: Vec<HObject> = Vec::new();
    let mut c: usize = 0;
    while c < count
        invariant
            c <= count,
            best@.len() == c,
            forall|k: int| 0 <= k < c ==> (#[trigger] best@[k])@ is None,
        decreases count - c,
    {
        best.push(HObject::Unknown);
        c = c + 1;
    }
    let mut node: usize = 0;
    while node < count
        invariant
            node <= count,
            count == model.nodes.len(),
            graph_model(*graph) == model,
            table@.len() == count,
            best@.len() == count,
            forall|a: int| 0 <= a < count ==> (#[trigger] table@[a]) < count,
            forall|a: int, b: int|
                0 <= a < count && 0 <= b < count ==> ((#[trigger] table@[a] == #[trigger] table@[b])
                    <==> model.same_class(a, b)),
            forall|a: int|
                0 <= a < count ==> best@[(#[trigger] table@[a]) as int]@ == class_label(
                    model,
                    a,
                    node as nat,
                ),
            first_conflict(model, node as nat) is None,
        decreases count - node,
    {
        let class = table[node];
        let label = node_label(graph, node);
        match label {
            HObject::Unknown => {},
            HObject::Named(name) => {
                let found: Option<String> = match &best[class] {
                    HObject::Unknown => None,
                    HObject::Named(first) => Some(first.clone()),
                };
                match found {
                    None => {
                        best.set(class, HObject::Named(name.clone()));
                    },
                    Some(first) => {
                        if first != *name {
                            proof {
                                assert(conflict_at(model, node as int));
                                lemma_first_conflict_stays(model, (node + 1) as nat, count as nat);
                            }
                            return Err(
                                TranslationError::new(
                                    TranslationErrorKind::TypeConflict(first, name.clone()),
                                ),
                            );
                        }
                    },
                }
            },
        }
        node = node + 1;
    }
    let mut node: usize = 0;
    proof {
        assert(model.nodes =~= Seq::new(
            count as nat,
            |k: int|
                if k < 0 {
                    resolved_label(model, k)
                } else {
                    model.nodes[k]
                },
        ));
        assert(graph_model(*graph) =~= model.with_labels(model.nodes));
    }
    while node < count
        invariant
            node <= count,
            count == model.nodes.len(),
            table@.len() == count,
            best@.len() == count,
            forall|a: int| 0 <= a < count ==> (#[trigger] table@[a]) < count,
            forall|a: int|
                0 <= a < count ==> best@[(#[trigger] table@[a]) as int]@ == resolved_label(model, a),
            graph_model(*graph) == model.with_labels(
                Seq::new(
                    count as nat,
                    |k: int|
                        if k < node {
                            resolved_label(model, k)
                        } else {
                            model.nodes[k]
                        },
                ),
            ),
        decreases count - node,
    {
        let resolved = best[table[node]].clone();
        set_node_label(graph, node, resolved);
        node = node + 1;
        proof {
            assert(graph_model(*graph) =~= model.with_labels(
                Seq::new(
                    count as nat,
                    |k: int|
                        if k < node {
                            resolved_label(model, k)
                        } else {
                            model.nodes[k]
                        },
                ),
            ));
        }
    }
    proof {
        assert(graph_model(*graph) =~= model.with_labels(resolved_labels(model)));
    }
    Ok(())
}

} // verus!
