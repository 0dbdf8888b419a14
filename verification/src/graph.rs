//! Weighted graphs: the edges of an automaton, the weight that leaves a
//! state, the edge that a target selects, and what can be reached.

use crate::timing::TimingModel;
use vstd::prelude::*;

verus! {

/// One transition: it leaves state `src`, enters state `dst`, emits one
/// packet described by `symbol` after a delay drawn from `timing`, and is
/// chosen among the edges that leave `src` in proportion to `weight`.
/// States are numbered by their place in the list of states.
#[derive(Debug)]
pub struct Edge<E> {
    pub src: usize,
    pub dst: usize,
    pub symbol: E,
    pub weight: u32,
    pub timing: TimingModel,
}

/// The weight of the edges that leave `state` among the first `upto` edges.
pub open spec fn out_weight<E>(edges: Seq<Edge<E>>, state: int, upto: int) -> int
    decreases upto,
{
    if upto <= 0 {
        0
    } else {
        out_weight(edges, state, upto - 1) + if edges[upto - 1].src == state {
            edges[upto - 1].weight as int
        } else {
            0
        }
    }
}

/// The number of edges that leave `state` among the first `upto` edges.
pub open spec fn out_degree<E>(edges: Seq<Edge<E>>, state: int, upto: int) -> int
    decreases upto,
{
    if upto <= 0 {
        0
    } else {
        out_degree(edges, state, upto - 1) + if edges[upto - 1].src == state {
            1int
        } else {
            0
        }
    }
}

/// Whether edge `k` is the one that `target` selects at `state`. The edges
/// that leave a state lie side by side on a line, each as long as its
/// weight, in the order of the edge list; a target selects the edge on
/// whose stretch it falls.
pub open spec fn selects<E>(edges: Seq<Edge<E>>, state: int, target: int, k: int) -> bool {
    &&& 0 <= k < edges.len()
    &&& edges[k].src == state
    &&& out_weight(edges, state, k) <= target < out_weight(edges, state, k + 1)
}

/// The edge that `target` selects at `state`.
pub open spec fn selected<E>(edges: Seq<Edge<E>>, state: int, target: int) -> int {
    choose|k: int| selects(edges, state, target, k)
}

/// No count of edges has a negative weight.
pub proof fn lemma_out_weight_nonnegative<E>(edges: Seq<Edge<E>>, state: int, upto: int)
    ensures
        0 <= out_weight(edges, state, upto),
    decreases upto,
{
    if upto > 0 {
        lemma_out_weight_nonnegative(edges, state, upto - 1);
    }
}

/// The weight that leaves a state grows with the number of edges counted.
pub proof fn lemma_out_weight_monotonic<E>(edges: Seq<Edge<E>>, state: int, i: int, j: int)
    requires
        i <= j,
    ensures
        out_weight(edges, state, i) <= out_weight(edges, state, j),
    decreases j - i,
{
    if i < j {
        lemma_out_weight_monotonic(edges, state, i, j - 1);
        lemma_out_weight_nonnegative(edges, state, j - 1);
    }
}

/// A target selects at most one edge.
pub proof fn lemma_selects_unique<E>(edges: Seq<Edge<E>>, state: int, target: int, k: int, l: int)
    requires
        selects(edges, state, target, k),
        selects(edges, state, target, l),
    ensures
        k == l,
{
    if k < l {
        lemma_out_weight_monotonic(edges, state, k + 1, l);
    } else if l < k {
        lemma_out_weight_monotonic(edges, state, l + 1, k);
    }
}

/// Every target below the weight counted so far selects one of the edges
/// counted so far.
pub proof fn lemma_selects_exists<E>(edges: Seq<Edge<E>>, state: int, target: int, upto: int)
    requires
        0 <= upto <= edges.len(),
        0 <= target < out_weight(edges, state, upto),
    ensures
        exists|k: int| 0 <= k < upto && selects(edges, state, target, k),
    decreases upto,
{
    if upto > 0 {
        if target < out_weight(edges, state, upto - 1) {
            lemma_selects_exists(edges, state, target, upto - 1);
        } else {
            assert(selects(edges, state, target, upto - 1));
        }
    }
}

/// No count of edges has a negative number of edges that leave a state.
pub proof fn lemma_out_degree_nonnegative<E>(edges: Seq<Edge<E>>, state: int, upto: int)
    ensures
        0 <= out_degree(edges, state, upto),
    decreases upto,
{
    if upto > 0 {
        lemma_out_degree_nonnegative(edges, state, upto - 1);
    }
}

/// Whether some edge leads from `from` to `to`.
pub open spec fn has_edge<E>(edges: Seq<Edge<E>>, from: int, to: int) -> bool {
    exists|i: int|
        #![trigger edges[i]]
        0 <= i < edges.len() && edges[i].src == from && edges[i].dst == to
}

/// Whether `path` is a list of states in which an edge leads from each
/// state to the next.
pub open spec fn is_path<E>(edges: Seq<Edge<E>>, path: Seq<int>) -> bool {
    &&& path.len() > 0
    &&& forall|i: int| 0 <= i < path.len() - 1 ==> has_edge(edges, #[trigger] path[i], path[i + 1])
}

/// Whether the edges lead from `from` to `to` in any number of steps.
pub open spec fn reachable<E>(edges: Seq<Edge<E>>, from: int, to: int) -> bool {
    exists|path: Seq<int>| #[trigger] is_path(edges, path) && path[0] == from && path.last() == to
}

/// Whether a set of states, given by its marks, holds every state that an
/// edge enters from a state of the set.
pub open spec fn closed_under<E>(edges: Seq<Edge<E>>, marked: Seq<bool>) -> bool {
    forall|i: int|
        #![trigger edges[i]]
        0 <= i < edges.len() && marked[edges[i].src as int] ==> marked[edges[i].dst as int]
}

/// Every state is reachable from itself.
pub proof fn lemma_reachable_self<E>(edges: Seq<Edge<E>>, state: int)
    ensures
        reachable(edges, state, state),
{
    let path: Seq<int> = seq![state];
    assert(is_path(edges, path));
    assert(path[0] == state && path.last() == state);
}

/// What an edge enters is reachable from wherever the state it leaves is.
pub proof fn lemma_reachable_step<E>(edges: Seq<Edge<E>>, from: int, i: int)
    requires
        0 <= i < edges.len(),
        reachable(edges, from, edges[i].src as int),
    ensures
        reachable(edges, from, edges[i].dst as int),
{
    let path: Seq<int> = choose|path: Seq<int>| #[trigger]
        is_path(edges, path) && path[0] == from && path.last() == edges[i].src as int;
    let longer: Seq<int> = path.push(edges[i].dst as int);
    assert forall|j: int| 0 <= j < longer.len() - 1 implies has_edge(
        edges,
        #[trigger] longer[j],
        longer[j + 1],
    ) by {
        if j < path.len() - 1 {
            assert(has_edge(edges, path[j], path[j + 1]));
        } else {
            assert(edges[i].src == longer[j] && edges[i].dst == longer[j + 1]);
        }
    }
    assert(is_path(edges, longer));
    assert(longer[0] == from && longer.last() == edges[i].dst as int);
}

/// A closed set holds every state of a path that starts in it.
proof fn lemma_path_stays<E>(edges: Seq<Edge<E>>, marked: Seq<bool>, path: Seq<int>, k: int)
    requires
        closed_under(edges, marked),
        is_path(edges, path),
        marked[path[0]],
        0 <= k < path.len(),
    ensures
        marked[path[k]],
    decreases k,
{
    if k > 0 {
        lemma_path_stays(edges, marked, path, k - 1);
        assert(has_edge(edges, path[k - 1], path[k - 1 + 1]));
        let i: int = choose|i: int|
            #![trigger edges[i]]
            0 <= i < edges.len() && edges[i].src == path[k - 1] && edges[i].dst == path[k];
        assert(marked[edges[i].dst as int]);
    }
}

/// A closed set holds every state that is reachable from one of its states.
pub proof fn lemma_closed_holds_reachable<E>(
    edges: Seq<Edge<E>>,
    marked: Seq<bool>,
    from: int,
    to: int,
)
    requires
        closed_under(edges, marked),
        marked[from],
        reachable(edges, from, to),
    ensures
        marked[to],
{
    let path: Seq<int> = choose|path: Seq<int>| #[trigger]
        is_path(edges, path) && path[0] == from && path.last() == to;
    lemma_path_stays(edges, marked, path, path.len() - 1);
}

/// The number of states that are not marked.
pub(crate) closed spec fn unmarked(marks: Seq<bool>) -> nat
    decreases marks.len(),
{
    if marks.len() == 0 {
        0
    } else {
        unmarked(marks.drop_last()) + if marks.last() {
            0nat
        } else {
            1nat
        }
    }
}

/// Marking a state leaves one state less unmarked.
pub(crate) proof fn lemma_mark_one(marks: Seq<bool>, i: int)
    requires
        0 <= i < marks.len(),
        !marks[i],
    ensures
        unmarked(marks.update(i, true)) + 1 == unmarked(marks),
    decreases marks.len(),
{
    let after = marks.update(i, true);
    if i == marks.len() - 1 {
        assert(after.drop_last() =~= marks.drop_last());
    } else {
        assert(after.drop_last() =~= marks.drop_last().update(i, true));
        lemma_mark_one(marks.drop_last(), i);
    }
}

/// Marks the states that can be reached from the initial state.
pub(crate) fn mark_reachable<E>(edges: &Vec<Edge<E>>, states: usize, initial: usize) -> (marks:
    Vec<bool>)
    requires
        initial < states,
        forall|i: int|
            #![trigger edges@[i]]
            0 <= i < edges@.len() ==> edges@[i].src < states && edges@[i].dst < states,
    ensures
        marks@.len() == states,
        forall|s: int|
            0 <= s < states ==> #[trigger] marks@[s] == reachable(edges@, initial as int, s),
{
    let mut marks: Vec<bool> = Vec::new();
    while marks.len() < states
        invariant
            marks@.len() <= states,
            forall|s: int| 0 <= s < marks@.len() ==> !(#[trigger] marks@[s]),
        decreases states - marks.len(),
    {
        marks.push(false);
    }
    marks.set(initial, true);
    proof {
        lemma_reachable_self(edges@, initial as int);
    }
    let mut changed: bool = true;
    while changed
        invariant
            marks@.len() == states,
            initial < states,
            marks@[initial as int],
            forall|i: int|
                #![trigger edges@[i]]
                0 <= i < edges@.len() ==> edges@[i].src < states && edges@[i].dst < states,
            forall|s: int|
                0 <= s < states && #[trigger] marks@[s] ==> reachable(edges@, initial as int, s),
            !changed ==> closed_under(edges@, marks@),
        decreases
            unmarked(marks@) + if changed {
                1nat
            } else {
                0nat
            },
    {
        changed = false;
        let ghost before: Seq<bool> = marks@;
        let mut i: usize = 0;
        while i < edges.len()
            invariant
                i <= edges@.len(),
                marks@.len() == states,
                initial < states,
                marks@[initial as int],
                forall|i: int|
                    #![trigger edges@[i]]
                    0 <= i < edges@.len() ==> edges@[i].src < states && edges@[i].dst < states,
                forall|s: int|
                    0 <= s < states && #[trigger] marks@[s] ==> reachable(
                        edges@,
                        initial as int,
                        s,
                    ),
                !changed ==> marks@ == before,
                !changed ==> forall|j: int|
                    #![trigger edges@[j]]
                    0 <= j < i && marks@[edges@[j].src as int] ==> marks@[edges@[j].dst as int],
                changed ==> unmarked(marks@) < unmarked(before),
                unmarked(marks@) <= unmarked(before),
            decreases edges.len() - i,
        {
            let src: usize = edges[i].src;
            let dst: usize = edges[i].dst;
            if marks[src] && !marks[dst] {
                proof {
                    lemma_mark_one(marks@, dst as int);
                    lemma_reachable_step(edges@, initial as int, i as int);
                }
                marks.set(dst, true);
                changed = true;
            }
            i = i + 1;
        }
    }
    proof {
        assert forall|s: int| 0 <= s < states implies #[trigger] marks@[s] == reachable(
            edges@,
            initial as int,
            s,
        ) by {
            if reachable(edges@, initial as int, s) {
                lemma_closed_holds_reachable(edges@, marks@, initial as int, s);
            }
        }
    }
    marks
}

/// Adds up the weights that leave `state`. The sum is given where it fits
/// in 32 bits; the flag says whether any edge leaves the state.
pub(crate) fn weigh_state<E>(edges: &Vec<Edge<E>>, state: usize) -> (weighed: (Option<u32>, bool))
    ensures
        match weighed.0 {
            Some(total) => total == out_weight(edges@, state as int, edges@.len() as int),
            None => out_weight(edges@, state as int, edges@.len() as int) > u32::MAX,
        },
        weighed.0 is Some ==> weighed.1 == (out_degree(edges@, state as int, edges@.len() as int)
            > 0),
{
    let mut total: u64 = 0;
    let mut leaves: bool = false;
    let mut i: usize = 0;
    while i < edges.len()
        invariant
            i <= edges@.len(),
            total == out_weight(edges@, state as int, i as int),
            total <= u32::MAX,
            leaves == (out_degree(edges@, state as int, i as int) > 0),
        decreases edges.len() - i,
    {
        proof {
            lemma_out_degree_nonnegative(edges@, state as int, i as int);
        }
        if edges[i].src == state {
            total = total + edges[i].weight as u64;
            leaves = true;
            if total > u32::MAX as u64 {
                proof {
                    lemma_out_weight_monotonic(
                        edges@,
                        state as int,
                        i + 1,
                        edges@.len() as int,
                    );
                }
                return (None, true);
            }
        }
        i = i + 1;
    }
    (Some(total as u32), leaves)
}

/// Whether a set of states, given by its marks, holds every state from
/// which an edge leads into the set.
pub open spec fn closed_backwards<E>(edges: Seq<Edge<E>>, marked: Seq<bool>) -> bool {
    forall|i: int|
        #![trigger edges[i]]
        0 <= i < edges.len() && marked[edges[i].dst as int] ==> marked[edges[i].src as int]
}

/// Whether the edges lead from `from` to one of the states that `goals`
/// marks.
pub open spec fn leads_to<E>(edges: Seq<Edge<E>>, goals: Seq<bool>, from: int) -> bool {
    exists|goal: int| 0 <= goal < goals.len() && #[trigger] goals[goal] && reachable(edges, from, goal)
}

/// From the state an edge leaves, everything is reachable that is
/// reachable from the state it enters.
pub proof fn lemma_reachable_before<E>(edges: Seq<Edge<E>>, i: int, to: int)
    requires
        0 <= i < edges.len(),
        reachable(edges, edges[i].dst as int, to),
    ensures
        reachable(edges, edges[i].src as int, to),
{
    let path: Seq<int> = choose|path: Seq<int>| #[trigger]
        is_path(edges, path) && path[0] == edges[i].dst as int && path.last() == to;
    let longer: Seq<int> = seq![edges[i].src as int] + path;
    assert forall|j: int| 0 <= j < longer.len() - 1 implies has_edge(
        edges,
        #[trigger] longer[j],
        longer[j + 1],
    ) by {
        if j == 0 {
            assert(edges[i].src == longer[0] && edges[i].dst == longer[1]);
        } else {
            assert(longer[j] == path[j - 1]);
            assert(longer[j + 1] == path[j - 1 + 1]);
            assert(has_edge(edges, path[j - 1], path[j - 1 + 1]));
        }
    }
    assert(is_path(edges, longer));
    assert(longer[0] == edges[i].src as int && longer.last() == to);
}

/// A set that is closed backwards holds every state of a path that ends in
/// it.
proof fn lemma_path_leads<E>(edges: Seq<Edge<E>>, marked: Seq<bool>, path: Seq<int>, k: int)
    requires
        closed_backwards(edges, marked),
        is_path(edges, path),
        marked[path.last()],
        0 <= k < path.len(),
    ensures
        marked[path[k]],
    decreases path.len() - k,
{
    if k < path.len() - 1 {
        lemma_path_leads(edges, marked, path, k + 1);
        assert(has_edge(edges, path[k], path[k + 1]));
        let i: int = choose|i: int|
            #![trigger edges[i]]
            0 <= i < edges.len() && edges[i].src == path[k] && edges[i].dst == path[k + 1];
        assert(marked[edges[i].src as int]);
    }
}

/// A set that is closed backwards holds every state from which one of its
/// states is reachable.
pub proof fn lemma_closed_backwards_holds<E>(
    edges: Seq<Edge<E>>,
    marked: Seq<bool>,
    from: int,
    to: int,
)
    requires
        closed_backwards(edges, marked),
        marked[to],
        reachable(edges, from, to),
    ensures
        marked[from],
{
    let path: Seq<int> = choose|path: Seq<int>| #[trigger]
        is_path(edges, path) && path[0] == from && path.last() == to;
    lemma_path_leads(edges, marked, path, 0);
}

/// Marks the states from which a goal can be reached.
pub(crate) fn mark_leading<E>(edges: &Vec<Edge<E>>, goals: Vec<bool>) -> (marks: Vec<bool>)
    requires
        forall|i: int|
            #![trigger edges@[i]]
            0 <= i < edges@.len() ==> edges@[i].src < goals@.len() && edges@[i].dst < goals@.len(),
    ensures
        marks@.len() == goals@.len(),
        forall|s: int| 0 <= s < goals@.len() ==> #[trigger] marks@[s] == leads_to(edges@, goals@, s),
{
    let ghost states: int = goals@.len() as int;
    let ghost wanted: Seq<bool> = goals@;
    let mut marks: Vec<bool> = goals;
    proof {
        assert forall|s: int| 0 <= s < states && #[trigger] marks@[s] implies leads_to(
            edges@,
            wanted,
            s,
        ) by {
            lemma_reachable_self(edges@, s);
        }
    }
    let mut changed: bool = true;
    while changed
        invariant
            marks@.len() == states,
            wanted.len() == states,
            forall|i: int|
                #![trigger edges@[i]]
                0 <= i < edges@.len() ==> edges@[i].src < states && edges@[i].dst < states,
            forall|s: int| 0 <= s < states && #[trigger] wanted[s] ==> marks@[s],
            forall|s: int| 0 <= s < states && #[trigger] marks@[s] ==> leads_to(edges@, wanted, s),
            !changed ==> closed_backwards(edges@, marks@),
        decreases
            unmarked(marks@) + if changed {
                1nat
            } else {
                0nat
            },
    {
        changed = false;
        let ghost before: Seq<bool> = marks@;
        let mut i: usize = 0;
        while i < edges.len()
            invariant
                i <= edges@.len(),
                marks@.len() == states,
                wanted.len() == states,
                forall|i: int|
                    #![trigger edges@[i]]
                    0 <= i < edges@.len() ==> edges@[i].src < states && edges@[i].dst < states,
                forall|s: int| 0 <= s < states && #[trigger] wanted[s] ==> marks@[s],
                forall|s: int|
                    0 <= s < states && #[trigger] marks@[s] ==> leads_to(edges@, wanted, s),
                !changed ==> marks@ == before,
                !changed ==> forall|j: int|
                    #![trigger edges@[j]]
                    0 <= j < i && marks@[edges@[j].dst as int] ==> marks@[edges@[j].src as int],
                changed ==> unmarked(marks@) < unmarked(before),
                unmarked(marks@) <= unmarked(before),
            decreases edges.len() - i,
        {
            let src: usize = edges[i].src;
            let dst: usize = edges[i].dst;
            if marks[dst] && !marks[src] {
                proof {
                    lemma_mark_one(marks@, src as int);
                    assert(leads_to(edges@, wanted, dst as int));
                    let goal: int = choose|goal: int|
                        0 <= goal < wanted.len() && #[trigger] wanted[goal] && reachable(
                            edges@,
                            dst as int,
                            goal,
                        );
                    lemma_reachable_before(edges@, i as int, goal);
                    assert(leads_to(edges@, wanted, src as int));
                }
                marks.set(src, true);
                changed = true;
            }
            i = i + 1;
        }
    }
    proof {
        assert forall|s: int| 0 <= s < states implies #[trigger] marks@[s] == leads_to(
            edges@,
            wanted,
            s,
        ) by {
            if leads_to(edges@, wanted, s) {
                let goal: int = choose|goal: int|
                    0 <= goal < wanted.len() && #[trigger] wanted[goal] && reachable(
                        edges@,
                        s,
                        goal,
                    );
                assert(marks@[goal]);
                lemma_closed_backwards_holds(edges@, marks@, s, goal);
            }
        }
    }
    marks
}

} // verus!
