//! What translation guarantees of the wires that variables name.

use crate::ast::{ExprModel, VariableModel};
use crate::classes::{lemma_linked_grows, lemma_pair_linked, lemma_separated, respects};
use crate::model::{
    lemma_chain_extends, lemma_occurrences_extend, lemma_row_extends, lemma_translation_extends,
    translate_chain, translate_frobenius_spec, translate_row, translate_spec, Failed,
    SignatureModel, Translated, TranslationState,
};
use vstd::prelude::*;

verus! {

/// Whether a variable of this name occurs in the diagram.
pub open spec fn mentions(expr: ExprModel, name: Seq<char>) -> bool
    decreases expr,
{
    match expr {
        ExprModel::Operation(_) => false,
        ExprModel::Frobenius { inputs, outputs } => inputs.contains(VariableModel::Named(name))
            || outputs.contains(VariableModel::Named(name)),
        ExprModel::Composition(parts) => exists|i: int|
            0 <= i < parts.len() && mentions(#[trigger] parts[i], name),
        ExprModel::Tensor(parts) => exists|i: int|
            0 <= i < parts.len() && mentions(#[trigger] parts[i], name),
    }
}

/// What has been added between two states lies at or above node `base`:
/// each new pair on both sides, and the node of each newly bound name.
pub open spec fn added_above(before: TranslationState, after: TranslationState, base: int) -> bool {
    &&& forall|k: int|
        before.graph.left.len() <= k < after.graph.left.len() ==> (#[trigger] after.graph.left[k])
            >= base && after.graph.right[k] >= base
    &&& forall|name: Seq<char>|
        after.bindings.contains_key(name) && !before.bindings.contains_key(name)
            ==> #[trigger] after.bindings[name] >= base
}

/// Every number in `nodes` is at or above `base`.
pub open spec fn all_above(nodes: Seq<int>, base: int) -> bool {
    forall|i: int| 0 <= i < nodes.len() ==> #[trigger] nodes[i] >= base
}

/// Additions at or above `base`, one after the other, are additions at or
/// above `base`.
pub proof fn lemma_added_above_twice(
    first: TranslationState,
    second: TranslationState,
    third: TranslationState,
    base: int,
)
    requires
        second.well_formed(),
        second.extends(first),
        third.extends(second),
        added_above(first, second, base),
        added_above(second, third, base),
    ensures
        added_above(first, third, base),
{
    assert forall|k: int| first.graph.left.len() <= k < third.graph.left.len() implies (
    #[trigger] third.graph.left[k]) >= base && third.graph.right[k] >= base by {
        if k < second.graph.left.len() {
            assert(second.graph.left[k] == third.graph.left[k]);
            assert(second.graph.right[k] == third.graph.right[k]);
        }
    }
    assert forall|name: Seq<char>|
        third.bindings.contains_key(name) && !first.bindings.contains_key(
            name,
        ) implies #[trigger] third.bindings[name] >= base by {
        if second.bindings.contains_key(name) {
            assert(second.bindings[name] >= base);
        }
    }
}

/// Occurrences of variables whose names, where bound, are bound at or
/// above `base` add only at or above `base`.
pub proof fn lemma_occurrences_apart(
    state: TranslationState,
    variables: Seq<VariableModel>,
    upto: nat,
    base: int,
)
    requires
        state.well_formed(),
        upto <= variables.len(),
        base <= state.graph.nodes.len(),
        forall|name: Seq<char>|
            variables.contains(VariableModel::Named(name)) && state.bindings.contains_key(name)
                ==> #[trigger] state.bindings[name] >= base,
    ensures
        added_above(state, state.with_occurrences(variables, upto), base),
    decreases upto,
{
    if upto > 0 {
        lemma_occurrences_apart(state, variables, (upto - 1) as nat, base);
        lemma_occurrences_extend(state, variables, (upto - 1) as nat);
        let before = state.with_occurrences(variables, (upto - 1) as nat);
        let after = before.with_occurrence(variables[upto - 1]);
        match variables[upto - 1] {
            VariableModel::Named(name) => {
                assert(variables.contains(VariableModel::Named(name)));
                if before.bindings.contains_key(name) {
                    assert(before.bindings[name] >= base);
                }
            },
            VariableModel::Anonymous => {},
        }
        assert(added_above(state, after, base));
    }
}

/// A translation in which every variable that is already bound is bound at
/// or above `base` adds only at or above `base`, and its interface lies
/// there too.
pub proof fn lemma_translation_apart(
    signatures: Map<Seq<char>, SignatureModel>,
    state: TranslationState,
    expr: ExprModel,
    base: int,
)
    requires
        state.well_formed(),
        base <= state.graph.nodes.len(),
        forall|name: Seq<char>|
            mentions(expr, name) && state.bindings.contains_key(name)
                ==> #[trigger] state.bindings[name] >= base,
    ensures
        translate_spec(signatures, state, expr) is Ok ==> {
            let translated = translate_spec(signatures, state, expr)->Ok_0;
            &&& added_above(state, translated.state, base)
            &&& all_above(translated.inputs, base)
            &&& all_above(translated.outputs, base)
        },
    decreases expr, 0nat,
{
    match expr {
        ExprModel::Operation(name) => {
            if signatures.contains_key(name) {
                let translated = translate_spec(signatures, state, expr)->Ok_0;
                assert(translated.state.graph.left == state.graph.left);
                assert(translated.state.bindings == state.bindings);
                assert(all_above(translated.inputs, base));
                assert(all_above(translated.outputs, base));
            }
        },
        ExprModel::Frobenius { inputs, outputs } => {
            let middle = state.with_occurrences(inputs, inputs.len());
            lemma_occurrences_extend(state, inputs, inputs.len());
            lemma_occurrences_apart(state, inputs, inputs.len(), base);
            assert forall|name: Seq<char>|
                outputs.contains(VariableModel::Named(name)) && middle.bindings.contains_key(
                    name,
                ) implies #[trigger] middle.bindings[name] >= base by {
                if state.bindings.contains_key(name) {
                    assert(mentions(expr, name));
                }
            }
            lemma_occurrences_extend(middle, outputs, outputs.len());
            lemma_occurrences_apart(middle, outputs, outputs.len(), base);
            let translated = translate_frobenius_spec(state, inputs, outputs);
            lemma_added_above_twice(state, middle, translated.state, base);
            assert(all_above(translated.inputs, base));
            assert(all_above(translated.outputs, base));
        },
        ExprModel::Composition(parts) => {
            lemma_chain_apart(signatures, state, parts, parts.len(), base);
        },
        ExprModel::Tensor(parts) => {
            lemma_row_apart(signatures, state, parts, parts.len(), base);
        },
    }
}

/// What `lemma_translation_apart` says, of a composition.
pub proof fn lemma_chain_apart(
    signatures: Map<Seq<char>, SignatureModel>,
    state: TranslationState,
    parts: Seq<ExprModel>,
    upto: nat,
    base: int,
)
    requires
        state.well_formed(),
        base <= state.graph.nodes.len(),
        forall|name: Seq<char>, i: int|
            0 <= i < parts.len() && mentions(#[trigger] parts[i], name)
                && state.bindings.contains_key(name) ==> #[trigger] state.bindings[name] >= base,
    ensures
        translate_chain(signatures, state, parts, upto) is Ok ==> {
            let translated = translate_chain(signatures, state, parts, upto)->Ok_0;
            &&& added_above(state, translated.state, base)
            &&& all_above(translated.inputs, base)
            &&& all_above(translated.outputs, base)
        },
    decreases parts, upto,
{
    if upto == 0 || upto > parts.len() {
    } else if upto == 1 {
        lemma_translation_apart(signatures, state, parts[0], base);
    } else {
        lemma_chain_apart(signatures, state, parts, (upto - 1) as nat, base);
        lemma_chain_extends(signatures, state, parts, (upto - 1) as nat);
        if translate_chain(signatures, state, parts, (upto - 1) as nat) is Ok {
            let before = translate_chain(signatures, state, parts, (upto - 1) as nat)->Ok_0;
            assert forall|name: Seq<char>|
                mentions(parts[upto - 1], name) && before.state.bindings.contains_key(
                    name,
                ) implies #[trigger] before.state.bindings[name] >= base by {
                if state.bindings.contains_key(name) {
                    assert(state.bindings[name] >= base);
                }
            }
            lemma_translation_apart(signatures, before.state, parts[upto - 1], base);
            lemma_translation_extends(signatures, before.state, parts[upto - 1]);
            if translate_chain(signatures, state, parts, upto) is Ok {
                let next = translate_spec(signatures, before.state, parts[upto - 1])->Ok_0;
                let after = translate_chain(signatures, state, parts, upto)->Ok_0;
                lemma_added_above_twice(state, before.state, next.state, base);
                assert(added_above(state, after.state, base)) by {
                    assert forall|k: int|
                        state.graph.left.len() <= k < after.state.graph.left.len() implies (
                    #[trigger] after.state.graph.left[k]) >= base && after.state.graph.right[k]
                        >= base by {
                        if k < next.state.graph.left.len() {
                            assert(next.state.graph.left[k] >= base);
                        } else {
                            let i = k - next.state.graph.left.len();
                            assert(before.outputs[i] >= base);
                            assert(next.inputs[i] >= base);
                        }
                    }
                }
            }
        }
    }
}

/// What `lemma_translation_apart` says, of a tensor.
pub proof fn lemma_row_apart(
    signatures: Map<Seq<char>, SignatureModel>,
    state: TranslationState,
    parts: Seq<ExprModel>,
    upto: nat,
    base: int,
)
    requires
        state.well_formed(),
        base <= state.graph.nodes.len(),
        forall|name: Seq<char>, i: int|
            0 <= i < parts.len() && mentions(#[trigger] parts[i], name)
                && state.bindings.contains_key(name) ==> #[trigger] state.bindings[name] >= base,
    ensures
        translate_row(signatures, state, parts, upto) is Ok ==> {
            let translated = translate_row(signatures, state, parts, upto)->Ok_0;
            &&& added_above(state, translated.state, base)
            &&& all_above(translated.inputs, base)
            &&& all_above(translated.outputs, base)
        },
    decreases parts, upto,
{
    if upto == 0 || upto > parts.len() {
    } else {
        lemma_row_apart(signatures, state, parts, (upto - 1) as nat, base);
        lemma_row_extends(signatures, state, parts, (upto - 1) as nat);
        if translate_row(signatures, state, parts, (upto - 1) as nat) is Ok {
            let before = translate_row(signatures, state, parts, (upto - 1) as nat)->Ok_0;
            assert forall|name: Seq<char>|
                mentions(parts[upto - 1], name) && before.state.bindings.contains_key(
                    name,
                ) implies #[trigger] before.state.bindings[name] >= base by {
                if state.bindings.contains_key(name) {
                    assert(state.bindings[name] >= base);
                }
            }
            lemma_translation_apart(signatures, before.state, parts[upto - 1], base);
            lemma_translation_extends(signatures, before.state, parts[upto - 1]);
            if translate_row(signatures, state, parts, upto) is Ok {
                let next = translate_spec(signatures, before.state, parts[upto - 1])->Ok_0;
                lemma_added_above_twice(state, before.state, next.state, base);
            }
        }
    }
}

/// The tensor of two diagrams identifies no node of the one with a node of
/// the other, provided that the second names no variable that is bound
/// when its translation begins. (A name that both use is one wire, and does
/// connect them.) No node of the second is then identified with any node
/// that was there before it.
pub proof fn lemma_tensor_keeps_apart(
    signatures: Map<Seq<char>, SignatureModel>,
    state: TranslationState,
    first: ExprModel,
    second: ExprModel,
    a: int,
    b: int,
)
    requires
        state.well_formed(),
        translate_spec(signatures, state, ExprModel::Tensor(seq![first, second])) is Ok,
        forall|name: Seq<char>|
            mentions(second, name) ==> !translate_spec(
                signatures,
                state,
                first,
            )->Ok_0.state.bindings.contains_key(name),
        0 <= a < translate_spec(signatures, state, first)->Ok_0.state.graph.nodes.len(),
        translate_spec(signatures, state, first)->Ok_0.state.graph.nodes.len() <= b,
    ensures
        translate_spec(signatures, state, first) is Ok,
        !translate_spec(
            signatures,
            state,
            ExprModel::Tensor(seq![first, second]),
        )->Ok_0.state.graph.same_class(a, b),
{
    let parts = seq![first, second];
    assert(translate_row(signatures, state, parts, 0) is Ok);
    assert(translate_row(signatures, state, parts, 1) is Ok);
    let one = translate_row(signatures, state, parts, 1)->Ok_0;
    let left = translate_spec(signatures, state, first)->Ok_0;
    assert(parts[0] == first);
    assert(parts[1] == second);
    assert(one.state == left.state);
    let right = translate_spec(signatures, left.state, second)->Ok_0;
    let whole = translate_spec(signatures, state, ExprModel::Tensor(parts))->Ok_0;
    assert(whole.state == right.state);
    let middle = left.state.graph.nodes.len() as int;
    lemma_translation_extends(signatures, state, first);
    lemma_translation_extends(signatures, left.state, second);
    lemma_translation_apart(signatures, left.state, second, middle);
    let classes = |node: int| if node < middle { 0int } else { 1int };
    assert(respects(classes, right.state.graph.left, right.state.graph.right)) by {
        assert forall|k: int|
            0 <= k < right.state.graph.left.len() && k < right.state.graph.right.len() implies classes(
            #[trigger] right.state.graph.left[k],
        ) == classes(right.state.graph.right[k]) by {
            if k < left.state.graph.left.len() {
                assert(left.state.graph.left[k] == right.state.graph.left[k]);
                assert(left.state.graph.right[k] == right.state.graph.right[k]);
            }
        }
    }
    lemma_separated(right.state.graph.left, right.state.graph.right, classes, a, b);
}

/// The names that occurrences of variables bind are names of those
/// variables.
pub proof fn lemma_occurrences_bind_their_names(
    state: TranslationState,
    variables: Seq<VariableModel>,
    upto: nat,
    name: Seq<char>,
)
    requires
        upto <= variables.len(),
        state.with_occurrences(variables, upto).bindings.contains_key(name),
    ensures
        state.bindings.contains_key(name) || variables.contains(VariableModel::Named(name)),
    decreases upto,
{
    if upto > 0 {
        let before = state.with_occurrences(variables, (upto - 1) as nat);
        if before.bindings.contains_key(name) {
            lemma_occurrences_bind_their_names(state, variables, (upto - 1) as nat, name);
        } else {
            assert(variables[upto - 1] == VariableModel::Named(name));
        }
    }
}

/// A name that is bound after a translation was bound before it or occurs
/// in the diagram.
pub proof fn lemma_bound_names(
    signatures: Map<Seq<char>, SignatureModel>,
    state: TranslationState,
    expr: ExprModel,
    name: Seq<char>,
)
    requires
        translate_spec(signatures, state, expr) is Ok,
        translate_spec(signatures, state, expr)->Ok_0.state.bindings.contains_key(name),
    ensures
        state.bindings.contains_key(name) || mentions(expr, name),
    decreases expr, 0nat,
{
    match expr {
        ExprModel::Operation(_) => {},
        ExprModel::Frobenius { inputs, outputs } => {
            let middle = state.with_occurrences(inputs, inputs.len());
            lemma_occurrences_bind_their_names(middle, outputs, outputs.len(), name);
            if middle.bindings.contains_key(name) {
                lemma_occurrences_bind_their_names(state, inputs, inputs.len(), name);
            }
        },
        ExprModel::Composition(parts) => {
            lemma_chain_bound_names(signatures, state, parts, parts.len(), name);
        },
        ExprModel::Tensor(parts) => {
            lemma_row_bound_names(signatures, state, parts, parts.len(), name);
        },
    }
}

/// What `lemma_bound_names` says, of a composition.
pub proof fn lemma_chain_bound_names(
    signatures: Map<Seq<char>, SignatureModel>,
    state: TranslationState,
    parts: Seq<ExprModel>,
    upto: nat,
    name: Seq<char>,
)
    requires
        translate_chain(signatures, state, parts, upto) is Ok,
        translate_chain(signatures, state, parts, upto)->Ok_0.state.bindings.contains_key(name),
    ensures
        state.bindings.contains_key(name) || exists|i: int|
            0 <= i < parts.len() && mentions(#[trigger] parts[i], name),
    decreases parts, upto,
{
    if upto == 1 {
        lemma_bound_names(signatures, state, parts[0], name);
    } else {
        let before = translate_chain(signatures, state, parts, (upto - 1) as nat)->Ok_0;
        lemma_bound_names(signatures, before.state, parts[upto - 1], name);
        if before.state.bindings.contains_key(name) {
            lemma_chain_bound_names(signatures, state, parts, (upto - 1) as nat, name);
        }
    }
}

/// What `lemma_bound_names` says, of a tensor.
pub proof fn lemma_row_bound_names(
    signatures: Map<Seq<char>, SignatureModel>,
    state: TranslationState,
    parts: Seq<ExprModel>,
    upto: nat,
    name: Seq<char>,
)
    requires
        translate_row(signatures, state, parts, upto) is Ok,
        translate_row(signatures, state, parts, upto)->Ok_0.state.bindings.contains_key(name),
    ensures
        state.bindings.contains_key(name) || exists|i: int|
            0 <= i < parts.len() && mentions(#[trigger] parts[i], name),
    decreases parts, upto,
{
    if upto == 0 || upto > parts.len() {
    } else {
        let before = translate_row(signatures, state, parts, (upto - 1) as nat)->Ok_0;
        lemma_bound_names(signatures, before.state, parts[upto - 1], name);
        if before.state.bindings.contains_key(name) {
            lemma_row_bound_names(signatures, state, parts, (upto - 1) as nat, name);
        }
    }
}

/// A diagram that is the tensor of two diagrams without a variable name in
/// common identifies no node of the one with a node of the other.
pub proof fn lemma_tensor_of_two_keeps_apart(
    signatures: Map<Seq<char>, SignatureModel>,
    first: ExprModel,
    second: ExprModel,
    a: int,
    b: int,
)
    requires
        translate_spec(
            signatures,
            TranslationState::initial(),
            ExprModel::Tensor(seq![first, second]),
        ) is Ok,
        forall|name: Seq<char>| !(mentions(first, name) && mentions(second, name)),
        0 <= a < translate_spec(
            signatures,
            TranslationState::initial(),
            first,
        )->Ok_0.state.graph.nodes.len(),
        translate_spec(signatures, TranslationState::initial(), first)->Ok_0.state.graph.nodes.len()
            <= b,
    ensures
        !translate_spec(
            signatures,
            TranslationState::initial(),
            ExprModel::Tensor(seq![first, second]),
        )->Ok_0.state.graph.same_class(a, b),
{
    let start = TranslationState::initial();
    let parts = seq![first, second];
    assert(translate_row(signatures, start, parts, 0) is Ok);
    assert(translate_row(signatures, start, parts, 1) is Ok);
    assert(parts[0] == first);
    let left = translate_spec(signatures, start, first)->Ok_0;
    assert forall|name: Seq<char>| mentions(second, name) implies !left.state.bindings.contains_key(
        name,
    ) by {
        if left.state.bindings.contains_key(name) {
            lemma_bound_names(signatures, start, first, name);
        }
    }
    lemma_tensor_keeps_apart(signatures, start, first, second, a, b);
}

/// Whether `node` is made for the variable `name` among the first `upto`
/// of `variables`, where their nodes are numbered from `first`.
pub open spec fn occurs_among(
    variables: Seq<VariableModel>,
    upto: nat,
    first: int,
    name: Seq<char>,
    node: int,
) -> bool {
    exists|i: int|
        0 <= i < upto && i < variables.len() && #[trigger] variables[i] == VariableModel::Named(
            name,
        ) && node == first + i
}

/// Whether `node` is made for an occurrence of the variable `name` while
/// the diagram is translated, starting in `state`.
pub open spec fn occurs(
    signatures: Map<Seq<char>, SignatureModel>,
    state: TranslationState,
    expr: ExprModel,
    name: Seq<char>,
    node: int,
) -> bool
    decreases expr, 0nat,
{
    match expr {
        ExprModel::Operation(_) => false,
        ExprModel::Frobenius { inputs, outputs } => {
            let first = state.graph.nodes.len() as int;
            occurs_among(inputs, inputs.len(), first, name, node) || occurs_among(
                outputs,
                outputs.len(),
                first + inputs.len(),
                name,
                node,
            )
        },
        ExprModel::Composition(parts) => occurs_in_chain(
            signatures,
            state,
            parts,
            parts.len(),
            name,
            node,
        ),
        ExprModel::Tensor(parts) => occurs_in_row(signatures, state, parts, parts.len(), name, node),
    }
}

/// `occurs`, for the first `upto` parts of a composition.
pub open spec fn occurs_in_chain(
    signatures: Map<Seq<char>, SignatureModel>,
    state: TranslationState,
    parts: Seq<ExprModel>,
    upto: nat,
    name: Seq<char>,
    node: int,
) -> bool
    decreases parts, upto,
{
    if upto == 0 || upto > parts.len() {
        false
    } else if upto == 1 {
        occurs(signatures, state, parts[0], name, node)
    } else {
        occurs_in_chain(signatures, state, parts, (upto - 1) as nat, name, node) || (
        match translate_chain(signatures, state, parts, (upto - 1) as nat) {
            Ok(before) => occurs(signatures, before.state, parts[upto - 1], name, node),
            Err(_) => false,
        })
    }
}

/// `occurs`, for the first `upto` parts of a tensor.
pub open spec fn occurs_in_row(
    signatures: Map<Seq<char>, SignatureModel>,
    state: TranslationState,
    parts: Seq<ExprModel>,
    upto: nat,
    name: Seq<char>,
    node: int,
) -> bool
    decreases parts, upto,
{
    if upto == 0 || upto > parts.len() {
        false
    } else {
        occurs_in_row(signatures, state, parts, (upto - 1) as nat, name, node) || (
        match translate_row(signatures, state, parts, (upto - 1) as nat) {
            Ok(before) => occurs(signatures, before.state, parts[upto - 1], name, node),
            Err(_) => false,
        })
    }
}

/// `name` is bound, and `node` is identified with the node bound to it.
pub open spec fn tied(state: TranslationState, name: Seq<char>, node: int) -> bool {
    state.bindings.contains_key(name) && state.graph.same_class(node, state.bindings[name])
}

/// What is tied in a state is tied in every state that extends it.
pub proof fn lemma_tied_stays(
    earlier: TranslationState,
    later: TranslationState,
    name: Seq<char>,
    node: int,
)
    requires
        later.extends(earlier),
        tied(earlier, name, node),
    ensures
        tied(later, name, node),
{
    assert(earlier.bindings.contains_key(name));
    lemma_linked_grows(
        earlier.graph.left,
        earlier.graph.right,
        later.graph.left,
        later.graph.right,
        node,
        earlier.bindings[name],
    );
}

/// The node of each occurrence of a named variable is tied to its name.
pub proof fn lemma_occurrences_tied(
    state: TranslationState,
    variables: Seq<VariableModel>,
    upto: nat,
    name: Seq<char>,
    node: int,
)
    requires
        state.well_formed(),
        upto <= variables.len(),
        occurs_among(variables, upto, state.graph.nodes.len() as int, name, node),
    ensures
        tied(state.with_occurrences(variables, upto), name, node),
    decreases upto,
{
    let first = state.graph.nodes.len() as int;
    let before = state.with_occurrences(variables, (upto - 1) as nat);
    let after = before.with_occurrence(variables[upto - 1]);
    lemma_occurrences_extend(state, variables, (upto - 1) as nat);
    assert(after.extends(before));
    if occurs_among(variables, (upto - 1) as nat, first, name, node) {
        lemma_occurrences_tied(state, variables, (upto - 1) as nat, name, node);
        lemma_tied_stays(before, after, name, node);
    } else {
        assert(variables[upto - 1] == VariableModel::Named(name));
        assert(node == before.graph.nodes.len());
        if before.bindings.contains_key(name) {
            lemma_pair_linked(after.graph.left, after.graph.right, after.graph.left.len() - 1);
        }
    }
}

/// After a translation, the node of each occurrence of a named variable in
/// the diagram is identified with the node bound to the name.
pub proof fn lemma_occurrence_tied(
    signatures: Map<Seq<char>, SignatureModel>,
    state: TranslationState,
    expr: ExprModel,
    name: Seq<char>,
    node: int,
)
    requires
        state.well_formed(),
        translate_spec(signatures, state, expr) is Ok,
        occurs(signatures, state, expr, name, node),
    ensures
        tied(translate_spec(signatures, state, expr)->Ok_0.state, name, node),
    decreases expr, 0nat,
{
    match expr {
        ExprModel::Operation(_) => {},
        ExprModel::Frobenius { inputs, outputs } => {
            let first = state.graph.nodes.len() as int;
            let middle = state.with_occurrences(inputs, inputs.len());
            let last = middle.with_occurrences(outputs, outputs.len());
            lemma_occurrences_extend(state, inputs, inputs.len());
            lemma_occurrences_extend(middle, outputs, outputs.len());
            if occurs_among(inputs, inputs.len(), first, name, node) {
                lemma_occurrences_tied(state, inputs, inputs.len(), name, node);
                lemma_tied_stays(middle, last, name, node);
            } else {
                lemma_occurrences_tied(middle, outputs, outputs.len(), name, node);
            }
        },
        ExprModel::Composition(parts) => {
            lemma_chain_occurrence_tied(signatures, state, parts, parts.len(), name, node);
        },
        ExprModel::Tensor(parts) => {
            lemma_row_occurrence_tied(signatures, state, parts, parts.len(), name, node);
        },
    }
}

/// What `lemma_occurrence_tied` says, of a composition.
pub proof fn lemma_chain_occurrence_tied(
    signatures: Map<Seq<char>, SignatureModel>,
    state: TranslationState,
    parts: Seq<ExprModel>,
    upto: nat,
    name: Seq<char>,
    node: int,
)
    requires
        state.well_formed(),
        translate_chain(signatures, state, parts, upto) is Ok,
        occurs_in_chain(signatures, state, parts, upto, name, node),
    ensures
        tied(translate_chain(signatures, state, parts, upto)->Ok_0.state, name, node),
    decreases parts, upto,
{
    if upto == 1 {
        lemma_occurrence_tied(signatures, state, parts[0], name, node);
    } else {
        let before = translate_chain(signatures, state, parts, (upto - 1) as nat)->Ok_0;
        let next = translate_spec(signatures, before.state, parts[upto - 1])->Ok_0;
        let after = translate_chain(signatures, state, parts, upto)->Ok_0;
        lemma_chain_extends(signatures, state, parts, (upto - 1) as nat);
        lemma_translation_extends(signatures, before.state, parts[upto - 1]);
        assert(after.state.extends(next.state));
        if occurs_in_chain(signatures, state, parts, (upto - 1) as nat, name, node) {
            lemma_chain_occurrence_tied(signatures, state, parts, (upto - 1) as nat, name, node);
            lemma_tied_stays(before.state, next.state, name, node);
        } else {
            lemma_occurrence_tied(signatures, before.state, parts[upto - 1], name, node);
        }
        lemma_tied_stays(next.state, after.state, name, node);
    }
}

/// What `lemma_occurrence_tied` says, of a tensor.
pub proof fn lemma_row_occurrence_tied(
    signatures: Map<Seq<char>, SignatureModel>,
    state: TranslationState,
    parts: Seq<ExprModel>,
    upto: nat,
    name: Seq<char>,
    node: int,
)
    requires
        state.well_formed(),
        translate_row(signatures, state, parts, upto) is Ok,
        occurs_in_row(signatures, state, parts, upto, name, node),
    ensures
        tied(translate_row(signatures, state, parts, upto)->Ok_0.state, name, node),
    decreases parts, upto,
{
    let before = translate_row(signatures, state, parts, (upto - 1) as nat)->Ok_0;
    let next = translate_spec(signatures, before.state, parts[upto - 1])->Ok_0;
    lemma_row_extends(signatures, state, parts, (upto - 1) as nat);
    lemma_translation_extends(signatures, before.state, parts[upto - 1]);
    if occurs_in_row(signatures, state, parts, (upto - 1) as nat, name, node) {
        lemma_row_occurrence_tied(signatures, state, parts, (upto - 1) as nat, name, node);
        lemma_tied_stays(before.state, next.state, name, node);
    } else {
        lemma_occurrence_tied(signatures, before.state, parts[upto - 1], name, node);
    }
}

/// A variable that a diagram names has an occurrence among the nodes that
/// the translation of the diagram makes.
pub proof fn lemma_mentioned_occurs(
    signatures: Map<Seq<char>, SignatureModel>,
    state: TranslationState,
    expr: ExprModel,
    name: Seq<char>,
) -> (node: int)
    requires
        state.well_formed(),
        translate_spec(signatures, state, expr) is Ok,
        mentions(expr, name),
    ensures
        occurs(signatures, state, expr, name, node),
        state.graph.nodes.len() <= node < translate_spec(
            signatures,
            state,
            expr,
        )->Ok_0.state.graph.nodes.len(),
    decreases expr, 0nat,
{
    match expr {
        ExprModel::Operation(_) => 0,
        ExprModel::Frobenius { inputs, outputs } => {
            let first = state.graph.nodes.len() as int;
            let middle = state.with_occurrences(inputs, inputs.len());
            lemma_occurrences_extend(state, inputs, inputs.len());
            lemma_occurrences_extend(middle, outputs, outputs.len());
            if inputs.contains(VariableModel::Named(name)) {
                let i = choose|i: int|
                    0 <= i < inputs.len() && inputs[i] == VariableModel::Named(name);
                assert(occurs_among(inputs, inputs.len(), first, name, first + i));
                first + i
            } else {
                let j = choose|j: int|
                    0 <= j < outputs.len() && outputs[j] == VariableModel::Named(name);
                assert(occurs_among(
                    outputs,
                    outputs.len(),
                    first + inputs.len(),
                    name,
                    first + inputs.len() + j,
                ));
                first + inputs.len() + j
            }
        },
        ExprModel::Composition(parts) => {
            let i = choose|i: int| 0 <= i < parts.len() && mentions(#[trigger] parts[i], name);
            lemma_part_occurs(signatures, state, parts, parts.len(), true, i, name)
        },
        ExprModel::Tensor(parts) => {
            let i = choose|i: int| 0 <= i < parts.len() && mentions(#[trigger] parts[i], name);
            lemma_part_occurs(signatures, state, parts, parts.len(), false, i, name)
        },
    }
}

/// The translation of the first `upto` parts of a composition, or of a
/// tensor.
pub open spec fn translate_parts(
    signatures: Map<Seq<char>, SignatureModel>,
    state: TranslationState,
    parts: Seq<ExprModel>,
    upto: nat,
    chained: bool,
) -> Result<Translated, Failed> {
    if chained {
        translate_chain(signatures, state, parts, upto)
    } else {
        translate_row(signatures, state, parts, upto)
    }
}

/// `occurs`, for the first `upto` parts of a composition or of a tensor.
pub open spec fn occurs_in_parts(
    signatures: Map<Seq<char>, SignatureModel>,
    state: TranslationState,
    parts: Seq<ExprModel>,
    upto: nat,
    chained: bool,
    name: Seq<char>,
    node: int,
) -> bool {
    if chained {
        occurs_in_chain(signatures, state, parts, upto, name, node)
    } else {
        occurs_in_row(signatures, state, parts, upto, name, node)
    }
}

/// What `lemma_mentioned_occurs` says, of part `i` among the first `upto`
/// parts of a composition or of a tensor.
pub proof fn lemma_part_occurs(
    signatures: Map<Seq<char>, SignatureModel>,
    state: TranslationState,
    parts: Seq<ExprModel>,
    upto: nat,
    chained: bool,
    i: int,
    name: Seq<char>,
) -> (node: int)
    requires
        state.well_formed(),
        0 <= i < upto <= parts.len(),
        translate_parts(signatures, state, parts, upto, chained) is Ok,
        mentions(parts[i], name),
    ensures
        occurs_in_parts(signatures, state, parts, upto, chained, name, node),
        state.graph.nodes.len() <= node < translate_parts(
            signatures,
            state,
            parts,
            upto,
            chained,
        )->Ok_0.state.graph.nodes.len(),
    decreases parts, upto,
{
    if chained {
        lemma_chain_extends(signatures, state, parts, upto);
        lemma_chain_extends(signatures, state, parts, (upto - 1) as nat);
    } else {
        lemma_row_extends(signatures, state, parts, upto);
        lemma_row_extends(signatures, state, parts, (upto - 1) as nat);
    }
    if chained && upto == 1 {
        lemma_mentioned_occurs(signatures, state, parts[0], name)
    } else {
        let before = translate_parts(signatures, state, parts, (upto - 1) as nat, chained)->Ok_0;
        lemma_translation_extends(signatures, before.state, parts[upto - 1]);
        if i < upto - 1 {
            lemma_part_occurs(signatures, state, parts, (upto - 1) as nat, chained, i, name)
        } else {
            lemma_mentioned_occurs(signatures, before.state, parts[upto - 1], name)
        }
    }
}

/// Where the tensor of two diagrams names a variable on both sides, a node
/// of the one is identified with a node of the other: the name is one wire.
pub proof fn lemma_tensor_shares_named_wire(
    signatures: Map<Seq<char>, SignatureModel>,
    state: TranslationState,
    first: ExprModel,
    second: ExprModel,
    name: Seq<char>,
) -> (nodes: (int, int))
    requires
        state.well_formed(),
        translate_spec(signatures, state, ExprModel::Tensor(seq![first, second])) is Ok,
        mentions(first, name),
        mentions(second, name),
    ensures
        state.graph.nodes.len() <= nodes.0 < translate_spec(
            signatures,
            state,
            first,
        )->Ok_0.state.graph.nodes.len(),
        translate_spec(signatures, state, first)->Ok_0.state.graph.nodes.len() <= nodes.1,
        translate_spec(
            signatures,
            state,
            ExprModel::Tensor(seq![first, second]),
        )->Ok_0.state.graph.same_class(nodes.0, nodes.1),
{
    let parts = seq![first, second];
    assert(translate_row(signatures, state, parts, 0) is Ok);
    assert(translate_row(signatures, state, parts, 1) is Ok);
    assert(parts[0] == first);
    assert(parts[1] == second);
    let left = translate_spec(signatures, state, first)->Ok_0;
    lemma_translation_extends(signatures, state, first);
    let a = lemma_mentioned_occurs(signatures, state, first, name);
    let b = lemma_mentioned_occurs(signatures, left.state, second, name);
    assert(occurs_in_row(signatures, state, parts, 1, name, a));
    assert(occurs_in_row(signatures, state, parts, 2, name, a));
    assert(occurs_in_row(signatures, state, parts, 2, name, b));
    lemma_named_occurrences_linked(signatures, state, ExprModel::Tensor(parts), name, a, b);
    (a, b)
}

/// All occurrences of one variable name, wherever they stand in a diagram,
/// are one wire: their nodes are identified with each other.
pub proof fn lemma_named_occurrences_linked(
    signatures: Map<Seq<char>, SignatureModel>,
    state: TranslationState,
    expr: ExprModel,
    name: Seq<char>,
    a: int,
    b: int,
)
    requires
        state.well_formed(),
        translate_spec(signatures, state, expr) is Ok,
        occurs(signatures, state, expr, name, a),
        occurs(signatures, state, expr, name, b),
    ensures
        translate_spec(signatures, state, expr)->Ok_0.state.graph.same_class(a, b),
{
    lemma_occurrence_tied(signatures, state, expr, name, a);
    lemma_occurrence_tied(signatures, state, expr, name, b);
}

/// No pair and no binding refers to `node`.
pub open spec fn untouched(state: TranslationState, node: int) -> bool {
    &&& forall|k: int| 0 <= k < state.graph.left.len() ==> #[trigger] state.graph.left[k] != node
    &&& forall|k: int| 0 <= k < state.graph.right.len() ==> #[trigger] state.graph.right[k] != node
    &&& forall|name: Seq<char>|
        state.bindings.contains_key(name) ==> #[trigger] state.bindings[name] != node
}

/// A node that no pair refers to is identified with no other node.
pub proof fn lemma_untouched_alone(state: TranslationState, node: int, other: int)
    requires
        untouched(state, node),
        other != node,
    ensures
        !state.graph.same_class(node, other),
{
    let classes = |n: int| if n == node { 1int } else { 0int };
    assert(respects(classes, state.graph.left, state.graph.right)) by {
        assert forall|k: int|
            0 <= k < state.graph.left.len() && k < state.graph.right.len() implies classes(
            #[trigger] state.graph.left[k],
        ) == classes(state.graph.right[k]) by {
            assert(state.graph.right[k] != node);
        }
    }
    lemma_separated(state.graph.left, state.graph.right, classes, node, other);
}

/// Occurrences of variables leave a node untouched that was untouched and
/// is not the node of a named one among them.
pub proof fn lemma_occurrences_leave_untouched(
    state: TranslationState,
    variables: Seq<VariableModel>,
    upto: nat,
    node: int,
)
    requires
        upto <= variables.len(),
        untouched(state, node),
        forall|i: int|
            0 <= i < upto && node == state.graph.nodes.len() + i ==> #[trigger] variables[i]
                == VariableModel::Anonymous,
    ensures
        untouched(state.with_occurrences(variables, upto), node),
        state.with_occurrences(variables, upto).graph.nodes.len() == state.graph.nodes.len() + upto,
    decreases upto,
{
    if upto > 0 {
        lemma_occurrences_leave_untouched(state, variables, (upto - 1) as nat, node);
        let before = state.with_occurrences(variables, (upto - 1) as nat);
        let after = before.with_occurrence(variables[upto - 1]);
        assert(before.graph.nodes.len() == state.graph.nodes.len() + upto - 1);
        if node == before.graph.nodes.len() {
            assert(variables[upto - 1] == VariableModel::Anonymous);
        }
        assert(untouched(after, node));
    }
}

/// An anonymous variable is a wire of its own: right after the Frobenius
/// node that holds it, its node is identified with no other node, not even
/// with that of another anonymous variable.
pub proof fn lemma_anonymous_alone(
    state: TranslationState,
    inputs: Seq<VariableModel>,
    outputs: Seq<VariableModel>,
    position: int,
    other: int,
)
    requires
        state.well_formed(),
        0 <= position < inputs.len() + outputs.len(),
        (inputs + outputs)[position] == VariableModel::Anonymous,
        other != state.graph.nodes.len() + position,
    ensures
        !translate_frobenius_spec(state, inputs, outputs).state.graph.same_class(
            state.graph.nodes.len() + position,
            other,
        ),
{
    let node = state.graph.nodes.len() + position;
    let middle = state.with_occurrences(inputs, inputs.len());
    let last = middle.with_occurrences(outputs, outputs.len());
    assert(untouched(state, node));
    assert forall|i: int|
        0 <= i < inputs.len() && node == state.graph.nodes.len() + i implies #[trigger] inputs[i]
        == VariableModel::Anonymous by {
        assert((inputs + outputs)[i] == inputs[i]);
    }
    lemma_occurrences_leave_untouched(state, inputs, inputs.len(), node);
    assert forall|i: int|
        0 <= i < outputs.len() && node == middle.graph.nodes.len() + i implies #[trigger] outputs[i]
        == VariableModel::Anonymous by {
        assert((inputs + outputs)[inputs.len() + i] == outputs[i]);
    }
    lemma_occurrences_leave_untouched(middle, outputs, outputs.len(), node);
    lemma_untouched_alone(last, node, other);
}

} // verus!
