//! Classes of identified nodes.
//!
//! Wires are identified pair by pair. Two nodes are one wire when a chain of
//! such pairs leads from the one to the other.

use crate::graph::GraphModel;
use crate::model::starts;
use vstd::prelude::*;

verus! {

/// A labelling of the nodes that is constant across each unified pair.
pub open spec fn respects(classes: spec_fn(int) -> int, left: Seq<int>, right: Seq<int>) -> bool {
    forall|k: int|
        0 <= k < left.len() && k < right.len() ==> classes(#[trigger] left[k]) == classes(right[k])
}

/// `a` and `b` lie in one class of the least equivalence that holds every
/// pair `(left[k], right[k])`: whatever is constant across each pair takes
/// one value on `a` and `b`. That is, `a` can be reached from `b` through
/// pairs, read in either direction.
pub open spec fn linked(left: Seq<int>, right: Seq<int>, a: int, b: int) -> bool {
    forall|classes: spec_fn(int) -> int| #[trigger]
        respects(classes, left, right) ==> classes(a) == classes(b)
}

/// One pair identifies `a` with `b`, in this order or the other.
pub open spec fn adjacent(left: Seq<int>, right: Seq<int>, a: int, b: int) -> bool {
    exists|k: int|
        0 <= k < left.len() && k < right.len() && ((#[trigger] left[k] == a && right[k] == b) || (
        left[k] == b && right[k] == a))
}

/// From `path[i]` one pair leads to `path[i + 1]`.
pub open spec fn step(left: Seq<int>, right: Seq<int>, path: Seq<int>, i: int) -> bool {
    adjacent(left, right, path[i], path[i + 1])
}

/// Each node of the path is identified with the next by one pair.
pub open spec fn is_path(left: Seq<int>, right: Seq<int>, path: Seq<int>) -> bool {
    &&& path.len() >= 1
    &&& forall|i: int| 0 <= i < path.len() - 1 ==> #[trigger] step(left, right, path, i)
}

/// A chain of pairs leads from `a` to `b`.
pub open spec fn reachable(left: Seq<int>, right: Seq<int>, a: int, b: int) -> bool {
    exists|path: Seq<int>| #[trigger] is_path(left, right, path) && path[0] == a && path.last() == b
}

/// The nodes of each pair are identified.
pub proof fn lemma_pair_linked(left: Seq<int>, right: Seq<int>, k: int)
    requires
        0 <= k < left.len(),
        k < right.len(),
    ensures
        linked(left, right, left[k], right[k]),
{
    assert forall|classes: spec_fn(int) -> int| #[trigger]
        respects(classes, left, right) implies classes(left[k]) == classes(right[k]) by {
        let v = left[k];
    }
}

/// Nodes that are identified stay identified when pairs are added.
pub proof fn lemma_linked_grows(
    left: Seq<int>,
    right: Seq<int>,
    more_left: Seq<int>,
    more_right: Seq<int>,
    a: int,
    b: int,
)
    requires
        starts(left, more_left),
        starts(right, more_right),
        linked(left, right, a, b),
    ensures
        linked(more_left, more_right, a, b),
{
    assert forall|classes: spec_fn(int) -> int| #[trigger]
        respects(classes, more_left, more_right) implies classes(a) == classes(b) by {
        assert forall|k: int| 0 <= k < left.len() && k < right.len() implies classes(
            #[trigger] left[k],
        ) == classes(right[k]) by {
            assert(classes(more_left[k]) == classes(more_right[k]));
        }
        assert(respects(classes, left, right));
    }
}

/// A labelling that is constant across each pair separates nodes that it
/// tells apart.
pub proof fn lemma_separated(
    left: Seq<int>,
    right: Seq<int>,
    classes: spec_fn(int) -> int,
    a: int,
    b: int,
)
    requires
        respects(classes, left, right),
        classes(a) != classes(b),
    ensures
        !linked(left, right, a, b),
{
}

/// The ends of a path are identified.
pub proof fn lemma_path_linked(left: Seq<int>, right: Seq<int>, path: Seq<int>)
    requires
        is_path(left, right, path),
    ensures
        linked(left, right, path[0], path.last()),
    decreases path.len(),
{
    if path.len() > 1 {
        let shorter = path.drop_last();
        assert forall|i: int| 0 <= i < shorter.len() - 1 implies #[trigger] step(
            left,
            right,
            shorter,
            i,
        ) by {
            assert(step(left, right, path, i));
        }
        lemma_path_linked(left, right, shorter);
        assert(step(left, right, path, path.len() - 2));
        let k = choose|k: int|
            0 <= k < left.len() && k < right.len() && ((#[trigger] left[k] == shorter.last()
                && right[k] == path.last()) || (left[k] == path.last() && right[k]
                == shorter.last()));
        lemma_pair_linked(left, right, k);
    }
}

/// A path that is prolonged by one pair is a path.
pub proof fn lemma_path_prolonged(left: Seq<int>, right: Seq<int>, path: Seq<int>, next: int)
    requires
        is_path(left, right, path),
        adjacent(left, right, path.last(), next),
    ensures
        is_path(left, right, path.push(next)),
{
    let longer = path.push(next);
    assert forall|i: int| 0 <= i < longer.len() - 1 implies #[trigger] step(
        left,
        right,
        longer,
        i,
    ) by {
        if i < path.len() - 1 {
            assert(step(left, right, path, i));
        }
    }
}

/// Two nodes are identified exactly if a chain of pairs leads from the one
/// to the other.
pub proof fn lemma_linked_is_reachable(left: Seq<int>, right: Seq<int>, a: int, b: int)
    ensures
        linked(left, right, a, b) <==> reachable(left, right, a, b),
{
    if reachable(left, right, a, b) {
        let path = choose|path: Seq<int>| #[trigger]
            is_path(left, right, path) && path[0] == a && path.last() == b;
        lemma_path_linked(left, right, path);
    }
    if linked(left, right, a, b) {
        let classes = |node: int|
            if reachable(left, right, a, node) {
                1int
            } else {
                0int
            };
        assert forall|k: int| 0 <= k < left.len() && k < right.len() implies classes(
            #[trigger] left[k],
        ) == classes(right[k]) by {
            if reachable(left, right, a, left[k]) {
                let path = choose|path: Seq<int>| #[trigger]
                    is_path(left, right, path) && path[0] == a && path.last() == left[k];
                lemma_path_prolonged(left, right, path, right[k]);
                assert(path.push(right[k])[0] == a);
            }
            if reachable(left, right, a, right[k]) {
                let path = choose|path: Seq<int>| #[trigger]
                    is_path(left, right, path) && path[0] == a && path.last() == right[k];
                lemma_path_prolonged(left, right, path, left[k]);
                assert(path.push(left[k])[0] == a);
            }
        }
        assert(respects(classes, left, right));
        assert(is_path(left, right, seq![a]));
        assert(seq![a][0] == a);
        assert(classes(a) == 1);
    }
}

/// Being identified is an equivalence.
pub proof fn lemma_same_class_equivalence<L>(graph: GraphModel<L>, a: int, b: int, c: int)
    ensures
        graph.same_class(a, a),
        graph.same_class(a, b) ==> graph.same_class(b, a),
        graph.same_class(a, b) && graph.same_class(b, c) ==> graph.same_class(a, c),
{
}

/// A node that is added is a class of its own.
pub proof fn lemma_new_node_alone<L>(graph: GraphModel<L>, label: L, other: int)
    requires
        graph.pairs_in_range(),
        other != graph.nodes.len(),
    ensures
        !graph.with_node(label).same_class(graph.nodes.len() as int, other),
{
    let node = graph.nodes.len() as int;
    let classes = |n: int| if n == node { 1int } else { 0int };
    assert forall|k: int| 0 <= k < graph.left.len() && k < graph.right.len() implies classes(
        #[trigger] graph.left[k],
    ) == classes(graph.right[k]) by {
        assert(graph.right[k] < node);
    }
    assert(respects(classes, graph.left, graph.right));
    lemma_separated(graph.left, graph.right, classes, node, other);
}

/// Identifying `v` with `w` is identifying `w` with `v`; doing it twice is
/// doing it once; and identifying a node with itself identifies nothing.
pub proof fn lemma_unify_laws<L>(graph: GraphModel<L>, v: int, w: int, a: int, b: int)
    requires
        graph.left.len() == graph.right.len(),
    ensures
        graph.with_unified(v, w).same_class(a, b) == graph.with_unified(w, v).same_class(a, b),
        graph.with_unified(v, w).with_unified(v, w).same_class(a, b) == graph.with_unified(
            v,
            w,
        ).same_class(a, b),
        graph.with_unified(v, v).same_class(a, b) == graph.same_class(a, b),
        graph.with_unified(v, w).same_class(v, w),
        graph.same_class(a, b) ==> graph.with_unified(v, w).same_class(a, b),
{
    let once = graph.with_unified(v, w);
    let twice = once.with_unified(v, w);
    let turned = graph.with_unified(w, v);
    let same = graph.with_unified(v, v);
    let last = graph.left.len() as int;
    assert forall|classes: spec_fn(int) -> int|
        (respects(classes, once.left, once.right) <==> respects(classes, graph.left, graph.right)
            && classes(v) == classes(w)) && (respects(classes, turned.left, turned.right)
            <==> respects(classes, graph.left, graph.right) && classes(v) == classes(w)) && (
        respects(classes, twice.left, twice.right) <==> respects(classes, graph.left, graph.right)
            && classes(v) == classes(w)) && (respects(classes, same.left, same.right) <==> respects(
            classes,
            graph.left,
            graph.right,
        )) by {
        lemma_respects_pushed(classes, graph.left, graph.right, v, w);
        lemma_respects_pushed(classes, graph.left, graph.right, w, v);
        lemma_respects_pushed(classes, graph.left, graph.right, v, v);
        lemma_respects_pushed(classes, once.left, once.right, v, w);
    }
    assert(graph.with_unified(v, w).same_class(a, b) == graph.with_unified(w, v).same_class(a, b));
    assert(twice.same_class(a, b) == once.same_class(a, b));
    assert(same.same_class(a, b) == graph.same_class(a, b));
}

/// A labelling is constant across the pairs with one pair more exactly if
/// it is constant across the pairs and across that pair.
pub proof fn lemma_respects_pushed(
    classes: spec_fn(int) -> int,
    left: Seq<int>,
    right: Seq<int>,
    v: int,
    w: int,
)
    requires
        left.len() == right.len(),
    ensures
        respects(classes, left.push(v), right.push(w)) <==> respects(classes, left, right)
            && classes(v) == classes(w),
{
    let more_left = left.push(v);
    let more_right = right.push(w);
    if respects(classes, more_left, more_right) {
        assert forall|k: int| 0 <= k < left.len() && k < right.len() implies classes(
            #[trigger] left[k],
        ) == classes(right[k]) by {
            assert(classes(more_left[k]) == classes(more_right[k]));
        }
        assert(classes(more_left[left.len() as int]) == classes(more_right[left.len() as int]));
    }
    if respects(classes, left, right) && classes(v) == classes(w) {
        assert forall|k: int| 0 <= k < more_left.len() && k < more_right.len() implies classes(
            #[trigger] more_left[k],
        ) == classes(more_right[k]) by {
            if k < left.len() {
                assert(classes(left[k]) == classes(right[k]));
            }
        }
    }
}

} // verus!
