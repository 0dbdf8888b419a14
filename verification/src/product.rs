//! Intersection of an automaton with a constraint: the product automaton,
//! whose runs are the runs of the automaton that the constraint accepts.
//!
//! A constraint is a small automaton of its own. Its edges do not emit
//! packets; each holds a test on edge symbols. While the model takes an
//! edge, the constraint takes the first of its edges, from the state it is
//! in, whose test the model edge's symbol passes; a model edge for which
//! there is none is not allowed. A run is accepted where it ends at a dead
//! end of the model while the constraint is in an accepting state.
//!
//! The product has one state for each pair of a model state and a constraint
//! state, and one edge for each pair of a model edge and a constraint state.
//! Edges that are not allowed, and edges that lead to where no accepted end
//! can be reached any more, are there with weight zero, so that no run takes
//! them.

use crate::automaton::AutomatonView;
use crate::automaton::TimedAutomaton;
use crate::graph::has_edge;
use crate::graph::is_path;
use crate::graph::leads_to;
use crate::graph::lemma_out_weight_monotonic;
use crate::graph::lemma_out_weight_nonnegative;
use crate::graph::mark_leading;
use crate::graph::out_weight;
use crate::graph::reachable;
use crate::graph::Edge;
use crate::random::RandomSource;
use crate::sampling::build_packets;
use crate::sampling::lemma_run_unique;
use crate::sampling::lemma_step_takes_edge;
use crate::sampling::packet_at;
use crate::sampling::packets_in_order;
use crate::sampling::run_in_order;
use crate::sampling::walk_edges;
use crate::sampling::walkable;
use crate::sampling::HeaderBuilder;
use crate::sampling::SampleError;
use crate::sampling::Transition;
use crate::structs::EdgeType;
use crate::structs::Protocol;
use vstd::arithmetic::div_mod::lemma_fundamental_div_mod;
use vstd::arithmetic::div_mod::lemma_fundamental_div_mod_converse;
use vstd::arithmetic::div_mod::lemma_mod_pos_bound;
use vstd::prelude::*;

verus! {

/// A test on edge symbols.
pub trait Matcher<E>: Sized {
    /// Whether a symbol passes the test.
    spec fn matches(&self, symbol: E) -> bool;

    fn test(&self, symbol: &E) -> (hit: bool)
        ensures
            hit == self.matches(*symbol),
    ;
}

/// An edge of a constraint: from state `src` to state `dst`, for model
/// edges whose symbol passes `matcher`.
#[derive(Debug)]
pub struct ConstraintEdge<M> {
    pub src: usize,
    pub dst: usize,
    pub matcher: M,
}

/// A constraint on the runs of an automaton. It has one state for each
/// entry of `accepting`, which says whether a run may end there.
#[derive(Debug)]
pub struct ConstraintAutomaton<M> {
    pub initial: usize,
    pub accepting: Vec<bool>,
    pub edges: Vec<ConstraintEdge<M>>,
}

impl<M> ConstraintAutomaton<M> {
    /// The number of states.
    pub open spec fn width(&self) -> int {
        self.accepting@.len() as int
    }

    /// The initial state is a state, and every edge joins two states.
    pub open spec fn wf(&self) -> bool {
        &&& 0 <= self.initial < self.width()
        &&& forall|i: int|
            #![trigger self.edges@[i]]
            0 <= i < self.edges@.len() ==> self.edges@[i].src < self.width() && self.edges@[i].dst
                < self.width()
    }

    /// Whether the constraint is well formed.
    pub fn is_wf(&self) -> (sound: bool)
        ensures
            sound == self.wf(),
    {
        if self.initial >= self.accepting.len() {
            return false;
        }
        let mut i: usize = 0;
        while i < self.edges.len()
            invariant
                i <= self.edges@.len(),
                forall|j: int|
                    #![trigger self.edges@[j]]
                    0 <= j < i ==> self.edges@[j].src < self.width() && self.edges@[j].dst
                        < self.width(),
            decreases self.edges.len() - i,
        {
            if self.edges[i].src >= self.accepting.len() || self.edges[i].dst
                >= self.accepting.len() {
                return false;
            }
            i = i + 1;
        }
        true
    }
}

/// The first edge, from edge number `from` on, that leaves `state` and
/// whose test `symbol` passes.
pub open spec fn first_match<E, M: Matcher<E>>(
    edges: Seq<ConstraintEdge<M>>,
    state: int,
    symbol: E,
    from: int,
) -> Option<int>
    decreases edges.len() - from,
{
    if from < 0 || from >= edges.len() {
        None
    } else if edges[from].src == state && edges[from].matcher.matches(symbol) {
        Some(from)
    } else {
        first_match(edges, state, symbol, from + 1)
    }
}

/// The constraint edge that is taken from `state` with a model edge of
/// this symbol, if the model edge is allowed there.
pub fn find_match<E, M: Matcher<E>>(
    constraint: &ConstraintAutomaton<M>,
    state: usize,
    symbol: &E,
) -> (found: Option<usize>)
    ensures
        match found {
            Some(g) => first_match(constraint.edges@, state as int, *symbol, 0) == Some(g as int)
                && g < constraint.edges@.len(),
            None => first_match(constraint.edges@, state as int, *symbol, 0) is None,
        },
{
    let mut i: usize = 0;
    while i < constraint.edges.len()
        invariant
            i <= constraint.edges@.len(),
            first_match(constraint.edges@, state as int, *symbol, 0) == first_match(
                constraint.edges@,
                state as int,
                *symbol,
                i as int,
            ),
        decreases constraint.edges.len() - i,
    {
        if constraint.edges[i].src == state && constraint.edges[i].matcher.test(symbol) {
            return Some(i);
        }
        i = i + 1;
    }
    None
}

/// The number of the pair of a model state and a constraint state, where
/// the constraint has `width` states.
pub open spec fn pair(state: int, stage: int, width: int) -> int {
    state * width + stage
}

/// The number of a pair tells both of its parts.
pub proof fn lemma_pair(state: int, stage: int, width: int)
    requires
        0 <= state,
        0 <= stage < width,
    ensures
        0 <= pair(state, stage, width),
        pair(state, stage, width) / width == state,
        pair(state, stage, width) % width == stage,
{
    lemma_fundamental_div_mod_converse(pair(state, stage, width), width, state, stage);
    assert(0 <= state * width) by (nonlinear_arith)
        requires
            0 <= state,
            0 < width,
    ;
}

/// The pairs of `count` states are numbered below `count * width`.
pub proof fn lemma_pair_bound(state: int, stage: int, width: int, count: int)
    requires
        0 <= state < count,
        0 <= stage < width,
    ensures
        0 <= pair(state, stage, width) < count * width,
{
    assert(0 <= state * width && state * width + width <= count * width) by (nonlinear_arith)
        requires
            0 <= state < count,
            0 < width,
    ;
}

/// A number below `count * width` is the number of a pair.
pub proof fn lemma_unpair(k: int, width: int, count: int)
    requires
        0 <= k < count * width,
        0 < width,
    ensures
        0 <= k / width < count,
        0 <= k % width < width,
        pair(k / width, k % width, width) == k,
{
    lemma_fundamental_div_mod(k, width);
    lemma_mod_pos_bound(k, width);
    let q = k / width;
    let r = k % width;
    assert(width * q == q * width) by (nonlinear_arith);
    assert(0 <= q < count) by (nonlinear_arith)
        requires
            0 <= k < count * width,
            0 < width,
            k == q * width + r,
            0 <= r < width,
    ;
}

/// The symbol of a product edge: the model edge it stands for, and the
/// constraint edge that is taken with it, if the model edge is allowed.
#[derive(Debug, Clone, Copy, PartialEq, Eq, Structural)]
pub struct PairedEdge {
    pub model_edge: usize,
    pub constraint_edge: Option<usize>,
}

/// Product edge number `k` before weights are cut: it stands for model
/// edge `k / width` taken while the constraint is in state `k % width`.
/// Where the model edge has positive weight and is allowed there, the
/// product edge has its weight and leads to the pair of the states that the
/// two edges enter; else it has weight zero and leads nowhere.
pub open spec fn raw_arc<E, M: Matcher<E>>(
    model: AutomatonView<E>,
    constraint: ConstraintAutomaton<M>,
    k: int,
) -> Edge<PairedEdge> {
    let width = constraint.width();
    let edge = model.edges[k / width];
    let stage = k % width;
    let src = pair(edge.src as int, stage, width);
    let found = if edge.weight == 0 {
        None
    } else {
        first_match(constraint.edges@, stage, edge.symbol, 0)
    };
    match found {
        Some(g) => Edge {
            src: src as usize,
            dst: pair(edge.dst as int, constraint.edges@[g].dst as int, width) as usize,
            symbol: PairedEdge {
                model_edge: (k / width) as usize,
                constraint_edge: Some(g as usize),
            },
            weight: edge.weight,
            timing: edge.timing,
        },
        None => Edge {
            src: src as usize,
            dst: src as usize,
            symbol: PairedEdge { model_edge: (k / width) as usize, constraint_edge: None },
            weight: 0,
            timing: edge.timing,
        },
    }
}

/// The product edges before weights are cut.
pub open spec fn raw_arcs<E, M: Matcher<E>>(
    model: AutomatonView<E>,
    constraint: ConstraintAutomaton<M>,
) -> Seq<Edge<PairedEdge>> {
    Seq::new(
        (model.edges.len() * constraint.width()) as nat,
        |k: int| raw_arc(model, constraint, k),
    )
}

/// Whether a run may end at a pair: the model state is a dead end and the
/// constraint state is accepting.
pub open spec fn is_goal<E, M>(
    model: AutomatonView<E>,
    constraint: ConstraintAutomaton<M>,
    q: int,
) -> bool {
    &&& model.is_dead_end(q / constraint.width())
    &&& constraint.accepting@[q % constraint.width()]
}

/// For each pair, whether a run may end there.
pub open spec fn goals<E, M>(model: AutomatonView<E>, constraint: ConstraintAutomaton<M>) -> Seq<
    bool,
> {
    Seq::new(
        (model.states.len() * constraint.width()) as nat,
        |q: int| is_goal(model, constraint, q),
    )
}

/// Whether an accepted end can be reached from a pair: allowed edges lead
/// from it to a pair at which a run may end.
pub open spec fn can_finish<E, M: Matcher<E>>(
    model: AutomatonView<E>,
    constraint: ConstraintAutomaton<M>,
    q: int,
) -> bool {
    leads_to(raw_arcs(model, constraint), goals(model, constraint), q)
}

/// Product edge number `k`: the edge before weights are cut, with weight
/// zero where it leads to a pair from which no accepted end can be reached.
pub open spec fn product_edge<E, M: Matcher<E>>(
    model: AutomatonView<E>,
    constraint: ConstraintAutomaton<M>,
    k: int,
) -> Edge<PairedEdge> {
    let raw = raw_arc(model, constraint, k);
    Edge {
        src: raw.src,
        dst: raw.dst,
        symbol: raw.symbol,
        weight: if can_finish(model, constraint, raw.dst as int) {
            raw.weight
        } else {
            0
        },
        timing: raw.timing,
    }
}

/// The product edges.
pub open spec fn product_edges<E, M: Matcher<E>>(
    model: AutomatonView<E>,
    constraint: ConstraintAutomaton<M>,
) -> Seq<Edge<PairedEdge>> {
    Seq::new(
        (model.edges.len() * constraint.width()) as nat,
        |k: int| product_edge(model, constraint, k),
    )
}

/// The product of a model and a constraint. Pair number `q` is state
/// number `q`, and its identifier; the initial state is the pair of the
/// two initial states; the step bound is the model's.
pub open spec fn product_view<E, M: Matcher<E>>(
    model: AutomatonView<E>,
    constraint: ConstraintAutomaton<M>,
) -> AutomatonView<PairedEdge> {
    AutomatonView {
        states: Seq::new(
            (model.states.len() * constraint.width()) as nat,
            |q: int| q as u32,
        ),
        initial: pair(model.initial, constraint.initial as int, constraint.width()),
        edges: product_edges(model, constraint),
        max_steps: model.max_steps,
    }
}

/// Builds the product edges before weights are cut.
fn build_raw_arcs<E: EdgeType, M: Matcher<E>>(
    model: &TimedAutomaton<E>,
    constraint: &ConstraintAutomaton<M>,
) -> (arcs: Vec<Edge<PairedEdge>>)
    requires
        constraint.wf(),
        model@.states.len() * constraint.width() <= u32::MAX,
        model@.edges.len() * constraint.width() <= usize::MAX,
    ensures
        arcs@ == raw_arcs(model@, *constraint),
{
    let width: usize = constraint.accepting.len();
    let edges: &Vec<Edge<E>> = model.edges();
    let ghost count: int = model@.states.len() as int;
    let mut arcs: Vec<Edge<PairedEdge>> = Vec::new();
    let mut m: usize = 0;
    while m < edges.len()
        invariant
            m <= edges@.len(),
            edges@ == model@.edges,
            model@.wf(),
            constraint.wf(),
            width == constraint.width(),
            count == model@.states.len(),
            count * width <= u32::MAX,
            arcs@.len() == m * width,
            forall|k: int|
                0 <= k < arcs@.len() ==> #[trigger] arcs@[k] == raw_arc(model@, *constraint, k),
        decreases edges.len() - m,
    {
        let edge: &Edge<E> = &edges[m];
        let mut stage: usize = 0;
        while stage < width
            invariant
                stage <= width,
                m < edges@.len(),
                edges@ == model@.edges,
                *edge == edges@[m as int],
                model@.wf(),
                constraint.wf(),
                width == constraint.width(),
                count == model@.states.len(),
                count * width <= u32::MAX,
                arcs@.len() == m * width + stage,
                forall|k: int|
                    0 <= k < arcs@.len() ==> #[trigger] arcs@[k] == raw_arc(model@, *constraint, k),
            decreases width - stage,
        {
            proof {
                lemma_pair(m as int, stage as int, width as int);
                lemma_pair_bound(edge.src as int, stage as int, width as int, count);
            }
            let src: usize = edge.src * width + stage;
            let found: Option<usize> = if edge.weight == 0 {
                None
            } else {
                find_match(constraint, stage, &edge.symbol)
            };
            let arc = match found {
                Some(g) => {
                    proof {
                        lemma_pair_bound(
                            edge.dst as int,
                            constraint.edges@[g as int].dst as int,
                            width as int,
                            count,
                        );
                    }
                    Edge {
                        src,
                        dst: edge.dst * width + constraint.edges[g].dst,
                        symbol: PairedEdge { model_edge: m, constraint_edge: Some(g) },
                        weight: edge.weight,
                        timing: edge.timing,
                    }
                },
                None => Edge {
                    src,
                    dst: src,
                    symbol: PairedEdge { model_edge: m, constraint_edge: None },
                    weight: 0,
                    timing: edge.timing,
                },
            };
            assert(arc == raw_arc(model@, *constraint, arcs@.len() as int));
            arcs.push(arc);
            stage = stage + 1;
        }
        assert((m + 1) * width == m * width + width) by (nonlinear_arith);
        m = m + 1;
    }
    proof {
        assert(arcs@ =~= raw_arcs(model@, *constraint));
    }
    arcs
}

/// Whether a step of the product from pair `from` along product edge `k`
/// to pair `to` is a step of both automata: the model edge that the product
/// edge stands for has positive weight and leads from the model state of
/// `from` to that of `to`, and the constraint takes, from its state of
/// `from`, its first edge whose test the model edge's symbol passes, to its
/// state of `to`.
pub open spec fn step_allowed<E, M: Matcher<E>>(
    model: AutomatonView<E>,
    constraint: ConstraintAutomaton<M>,
    from: int,
    k: int,
    to: int,
) -> bool {
    let width = constraint.width();
    let edge = model.edges[k / width];
    &&& 0 <= k < model.edges.len() * width
    &&& edge.weight > 0
    &&& from == pair(edge.src as int, k % width, width)
    &&& first_match(constraint.edges@, k % width, edge.symbol, 0) matches Some(g) && to == pair(
        edge.dst as int,
        constraint.edges@[g].dst as int,
        width,
    )
}

/// A product edge joins two pairs and stands for a model edge, whose
/// weight it has at most.
pub proof fn lemma_product_edge_in_range<E: EdgeType, M: Matcher<E>>(
    model: AutomatonView<E>,
    constraint: ConstraintAutomaton<M>,
    k: int,
)
    requires
        model.wf(),
        constraint.wf(),
        model.states.len() * constraint.width() <= u32::MAX,
        0 <= k < model.edges.len() * constraint.width(),
    ensures
        ({
            let width = constraint.width();
            let raw = raw_arc(model, constraint, k);
            let cut = product_edge(model, constraint, k);
            &&& 0 <= k / width < model.edges.len()
            &&& 0 <= k % width < width
            &&& raw.src == pair(model.edges[k / width].src as int, k % width, width)
            &&& raw.src < model.states.len() * width
            &&& raw.dst < model.states.len() * width
            &&& raw.symbol.model_edge == k / width
            &&& raw.weight <= model.edges[k / width].weight
            &&& cut.src == raw.src
            &&& cut.dst == raw.dst
            &&& cut.symbol == raw.symbol
            &&& cut.weight <= raw.weight
            &&& cut.weight > 0 ==> can_finish(model, constraint, raw.dst as int)
            &&& raw.weight > 0 ==> step_allowed(model, constraint, raw.src as int, k, raw.dst as int)
        }),
{
    let width = constraint.width();
    lemma_unpair(k, width, model.edges.len() as int);
    let edge = model.edges[k / width];
    lemma_pair_bound(edge.src as int, k % width, width, model.states.len() as int);
    if edge.weight != 0 {
        match first_match(constraint.edges@, k % width, edge.symbol, 0) {
            Some(g) => {
                lemma_first_match_in_range(constraint.edges@, k % width, edge.symbol, 0);
                lemma_pair_bound(
                    edge.dst as int,
                    constraint.edges@[g].dst as int,
                    width,
                    model.states.len() as int,
                );
            },
            None => {},
        }
    }
}

/// The first match is an edge that leaves the state and whose test the
/// symbol passes.
pub proof fn lemma_first_match_in_range<E, M: Matcher<E>>(
    edges: Seq<ConstraintEdge<M>>,
    state: int,
    symbol: E,
    from: int,
)
    requires
        0 <= from,
    ensures
        first_match(edges, state, symbol, from) matches Some(g) ==> {
            &&& from <= g < edges.len()
            &&& edges[g].src == state
            &&& edges[g].matcher.matches(symbol)
        },
    decreases edges.len() - from,
{
    if from < edges.len() && !(edges[from].src == state && edges[from].matcher.matches(symbol)) {
        lemma_first_match_in_range(edges, state, symbol, from + 1);
    }
}

/// Marks the pairs at which a run may end.
fn mark_goals<E: EdgeType, M>(
    model: &TimedAutomaton<E>,
    constraint: &ConstraintAutomaton<M>,
) -> (marks: Vec<bool>)
    requires
        constraint.width() > 0,
        model@.states.len() * constraint.width() <= u32::MAX,
    ensures
        marks@ == goals(model@, *constraint),
{
    let width: usize = constraint.accepting.len();
    let count: usize = model.states().len();
    let mut marks: Vec<bool> = Vec::new();
    let mut state: usize = 0;
    while state < count
        invariant
            state <= count,
            count == model@.states.len(),
            width == constraint.width(),
            width > 0,
            marks@.len() == state * width,
            forall|q: int|
                0 <= q < marks@.len() ==> #[trigger] marks@[q] == is_goal(model@, *constraint, q),
        decreases count - state,
    {
        let dead: bool = model.total_weight(state) == 0;
        let mut stage: usize = 0;
        while stage < width
            invariant
                stage <= width,
                state < count,
                count == model@.states.len(),
                width == constraint.width(),
                dead == model@.is_dead_end(state as int),
                marks@.len() == state * width + stage,
                forall|q: int|
                    0 <= q < marks@.len() ==> #[trigger] marks@[q] == is_goal(
                        model@,
                        *constraint,
                        q,
                    ),
            decreases width - stage,
        {
            proof {
                lemma_pair(state as int, stage as int, width as int);
            }
            marks.push(dead && constraint.accepting[stage]);
            stage = stage + 1;
        }
        assert((state + 1) * width == state * width + width) by (nonlinear_arith);
        state = state + 1;
    }
    proof {
        assert(marks@ =~= goals(model@, *constraint));
    }
    marks
}

/// Cuts the weight of the edges that lead to a pair from which no accepted
/// end can be reached.
fn cut_arcs<E: EdgeType, M: Matcher<E>>(
    raw: Vec<Edge<PairedEdge>>,
    finishing: &Vec<bool>,
    Ghost(model): Ghost<AutomatonView<E>>,
    Ghost(constraint): Ghost<ConstraintAutomaton<M>>,
) -> (edges: Vec<Edge<PairedEdge>>)
    requires
        model.wf(),
        constraint.wf(),
        model.states.len() * constraint.width() <= u32::MAX,
        raw@ == raw_arcs(model, constraint),
        finishing@.len() == model.states.len() * constraint.width(),
        forall|q: int|
            0 <= q < finishing@.len() ==> #[trigger] finishing@[q] == can_finish(
                model,
                constraint,
                q,
            ),
    ensures
        edges@ == product_edges(model, constraint),
{
    let ghost all: Seq<Edge<PairedEdge>> = raw@;
    let mut edges: Vec<Edge<PairedEdge>> = Vec::with_capacity(raw.len());
    for arc in iter: raw
        invariant
            iter.seq() == all,
            all == raw_arcs(model, constraint),
            model.wf(),
            constraint.wf(),
            model.states.len() * constraint.width() <= u32::MAX,
            finishing@.len() == model.states.len() * constraint.width(),
            forall|q: int|
                0 <= q < finishing@.len() ==> #[trigger] finishing@[q] == can_finish(
                    model,
                    constraint,
                    q,
                ),
            edges@.len() == iter.index(),
            forall|k: int|
                0 <= k < edges@.len() ==> #[trigger] edges@[k] == product_edge(model, constraint, k),
    {
        let ghost k: int = edges@.len() as int;
        proof {
            assert(arc == all[k]);
            lemma_product_edge_in_range(model, constraint, k);
        }
        let Edge { src, dst, symbol, weight, timing } = arc;
        let kept: u32 = if finishing[dst] {
            weight
        } else {
            0
        };
        edges.push(Edge { src, dst, symbol, weight: kept, timing });
    }
    proof {
        assert(edges@ =~= product_edges(model, constraint));
    }
    edges
}

/// Within the edges that stand for model edge `m`, the only one that
/// leaves the pair of `state` and `stage` is the one for `stage`, and it
/// does so where the model edge leaves `state`.
proof fn lemma_weight_in_block<E: EdgeType, M: Matcher<E>>(
    model: AutomatonView<E>,
    constraint: ConstraintAutomaton<M>,
    state: int,
    stage: int,
    m: int,
    j: int,
)
    requires
        model.wf(),
        constraint.wf(),
        model.states.len() * constraint.width() <= u32::MAX,
        0 <= state < model.states.len(),
        0 <= stage < constraint.width(),
        0 <= m < model.edges.len(),
        0 <= j <= constraint.width(),
    ensures
        ({
            let width = constraint.width();
            let edges = product_edges(model, constraint);
            let q = pair(state, stage, width);
            out_weight(edges, q, m * width + j) == out_weight(edges, q, m * width)
                + if model.edges[m].src == state && stage < j {
                edges[m * width + stage].weight as int
            } else {
                0
            }
        }),
    decreases j,
{
    if j > 0 {
        let width = constraint.width();
        lemma_weight_in_block(model, constraint, state, stage, m, j - 1);
        let k = m * width + (j - 1);
        lemma_pair(m, j - 1, width);
        lemma_pair_bound(m, j - 1, width, model.edges.len() as int);
        lemma_product_edge_in_range(model, constraint, k);
        lemma_pair(model.edges[m].src as int, j - 1, width);
        lemma_pair(state, stage, width);
        assert(m * width + j == k + 1);
    }
}

/// The weight that leaves a pair is at most the weight that leaves its
/// model state.
proof fn lemma_weight_below_model<E: EdgeType, M: Matcher<E>>(
    model: AutomatonView<E>,
    constraint: ConstraintAutomaton<M>,
    state: int,
    stage: int,
    m: int,
)
    requires
        model.wf(),
        constraint.wf(),
        model.states.len() * constraint.width() <= u32::MAX,
        0 <= state < model.states.len(),
        0 <= stage < constraint.width(),
        0 <= m <= model.edges.len(),
    ensures
        out_weight(
            product_edges(model, constraint),
            pair(state, stage, constraint.width()),
            m * constraint.width(),
        ) <= out_weight(model.edges, state, m),
    decreases m,
{
    let width = constraint.width();
    let edges = product_edges(model, constraint);
    let q = pair(state, stage, width);
    if m > 0 {
        lemma_weight_below_model(model, constraint, state, stage, m - 1);
        lemma_weight_in_block(model, constraint, state, stage, m - 1, width);
        assert((m - 1) * width + width == m * width) by (nonlinear_arith);
        let k = (m - 1) * width + stage;
        lemma_pair(m - 1, stage, width);
        lemma_pair_bound(m - 1, stage, width, model.edges.len() as int);
        lemma_product_edge_in_range(model, constraint, k);
        assert(edges[k] == product_edge(model, constraint, k));
        assert(edges[k].weight <= model.edges[m - 1].weight);
        assert(out_weight(edges, q, m * width) == out_weight(edges, q, (m - 1) * width)
            + if model.edges[m - 1].src == state {
            edges[k].weight as int
        } else {
            0
        });
        assert(out_weight(model.edges, state, m) == out_weight(model.edges, state, m - 1)
            + if model.edges[m - 1].src == state {
            model.edges[m - 1].weight as int
        } else {
            0
        });
    } else {
        assert(m * width == 0) by (nonlinear_arith)
            requires
                m == 0,
        ;
    }
}

/// Adds up, for each pair, the weights of the edges that leave it.
fn sum_weights<E: EdgeType, M: Matcher<E>>(
    edges: &Vec<Edge<PairedEdge>>,
    pairs: usize,
    Ghost(model): Ghost<AutomatonView<E>>,
    Ghost(constraint): Ghost<ConstraintAutomaton<M>>,
) -> (totals: Vec<u32>)
    requires
        model.wf(),
        constraint.wf(),
        model.states.len() * constraint.width() <= u32::MAX,
        pairs == model.states.len() * constraint.width(),
        edges@ == product_edges(model, constraint),
    ensures
        totals@.len() == pairs,
        forall|q: int|
            0 <= q < pairs ==> #[trigger] totals@[q] == out_weight(edges@, q, edges@.len() as int),
{
    let mut totals: Vec<u32> = Vec::with_capacity(pairs);
    while totals.len() < pairs
        invariant
            totals@.len() <= pairs,
            forall|q: int| 0 <= q < totals@.len() ==> #[trigger] totals@[q] == 0,
        decreases pairs - totals.len(),
    {
        totals.push(0);
    }
    let mut k: usize = 0;
    while k < edges.len()
        invariant
            k <= edges@.len(),
            model.wf(),
            constraint.wf(),
            model.states.len() * constraint.width() <= u32::MAX,
            pairs == model.states.len() * constraint.width(),
            edges@ == product_edges(model, constraint),
            totals@.len() == pairs,
            forall|q: int|
                0 <= q < pairs ==> #[trigger] totals@[q] == out_weight(edges@, q, k as int),
        decreases edges.len() - k,
    {
        let src: usize = edges[k].src;
        let weight: u32 = edges[k].weight;
        proof {
            let width = constraint.width();
            lemma_product_edge_in_range(model, constraint, k as int);
            lemma_unpair(src as int, width, model.states.len() as int);
            lemma_weight_below_model(
                model,
                constraint,
                src as int / width,
                src as int % width,
                model.edges.len() as int,
            );
            lemma_out_weight_monotonic(edges@, src as int, k + 1, edges@.len() as int);
            assert(0 <= model.total_weight(src as int / width) <= u32::MAX);
        }
        let ghost before: Seq<u32> = totals@;
        totals.set(src, totals[src] + weight);
        proof {
            assert forall|q: int| 0 <= q < pairs implies #[trigger] totals@[q] == out_weight(
                edges@,
                q,
                k + 1,
            ) by {
                assert(before[q] == out_weight(edges@, q, k as int));
            }
        }
        k = k + 1;
    }
    totals
}

/// Why an automaton and a constraint have no product.
#[derive(Debug, Clone, Copy, PartialEq, Eq, Structural)]
pub enum IntersectionError {
    /// The constraint is not well formed.
    InvalidConstraint,
    /// The pairs of states cannot be numbered in 32 bits, or the pairs of a
    /// model edge and a constraint state cannot be counted.
    TooLarge,
    /// The constraint accepts no run of the automaton.
    Unsatisfiable,
}

/// Whether the product of a model and a constraint is small enough to be
/// built.
pub open spec fn product_fits<E, M>(model: AutomatonView<E>, constraint: ConstraintAutomaton<M>)
    -> bool {
    &&& model.states.len() * constraint.width() <= u32::MAX
    &&& model.edges.len() * constraint.width() <= usize::MAX
}

/// An automaton under a constraint: the product of the two, ready to be
/// sampled. Its runs are the runs of the automaton that the constraint
/// accepts.
#[derive(Debug)]
pub struct ConstrainedAutomaton<'a, E: EdgeType> {
    model: &'a TimedAutomaton<E>,
    initial: usize,
    edges: Vec<Edge<PairedEdge>>,
    /// For each pair the weight of the edges that leave it.
    totals: Vec<u32>,
}

impl<'a, E: EdgeType> View for ConstrainedAutomaton<'a, E> {
    type V = AutomatonView<PairedEdge>;

    closed spec fn view(&self) -> AutomatonView<PairedEdge> {
        AutomatonView {
            states: Seq::new(self.totals@.len(), |q: int| q as u32),
            initial: self.initial as int,
            edges: self.edges@,
            max_steps: self.model@.max_steps,
        }
    }
}

impl<'a, E: EdgeType> ConstrainedAutomaton<'a, E> {
    #[verifier::type_invariant]
    spec fn inv(&self) -> bool {
        &&& walkable(self@, self.totals@)
        &&& forall|k: int|
            0 <= k < self.edges@.len() ==> (#[trigger] self.edges@[k]).symbol.model_edge
                < self.model@.edges.len()
    }

    /// The automaton that is constrained.
    pub closed spec fn model(&self) -> AutomatonView<E> {
        self.model@
    }

    /// The edges of the product; edge number `k` stands for model edge
    /// `k / width`, where `width` is the number of the constraint's states.
    pub fn edges(&self) -> (edges: &Vec<Edge<PairedEdge>>)
        ensures
            edges@ == self@.edges,
    {
        &self.edges
    }

    /// The number of the initial pair.
    pub fn initial(&self) -> (initial: usize)
        ensures
            initial == self@.initial,
    {
        self.initial
    }

    /// Samples one run of the product: from the initial pair at
    /// `start_time`, take steps until a dead end is reached. Each step
    /// takes three draws from `rng`, as a step of the model does. The run
    /// is given up if the model's step bound is used up.
    pub fn walk<R: RandomSource>(&self, rng: &mut R, start_time: u64) -> (outcome: Result<
        Vec<Transition>,
        SampleError,
    >)
        ensures
            match outcome {
                Ok(run) => {
                    &&& self@.is_run(*old(rng), start_time, run@)
                    &&& run@.len() <= self@.step_bound()
                    &&& run_in_order(run@, start_time)
                    &&& forall|i: int|
                        0 <= i < run@.len() ==> (#[trigger] run@[i]).edge < self@.edges.len()
                    &&& *final(rng) == old(rng).skip(3 * run@.len() as int)
                },
                Err(SampleError::StepLimitExceeded) => {
                    &&& self@.overruns(*old(rng), start_time)
                    &&& *final(rng) == old(rng).skip(3 * self@.step_bound() as int)
                },
            },
    {
        proof {
            use_type_invariant(self);
        }
        walk_edges(
            &self.edges,
            &self.totals,
            self.initial,
            self.model.step_bound(),
            rng,
            start_time,
            Ghost(self@),
        )
    }

    /// Samples one run of the product and describes its packets: each step
    /// emits the packet of the model edge that its product edge stands for.
    pub fn sample<R: RandomSource, B: HeaderBuilder<E>>(
        &self,
        rng: &mut R,
        start_time: u64,
        header_builder: B,
    ) -> (outcome: Result<Vec<B::Info>, SampleError>)
        ensures
            match outcome {
                Ok(packets) => {
                    let run = self@.sampled_run(*old(rng), start_time);
                    &&& self@.is_run(*old(rng), start_time, run)
                    &&& run.len() <= self@.step_bound()
                    &&& packets@.len() == run.len()
                    &&& forall|i: int|
                        0 <= i < run.len() ==> (#[trigger] packets@[i])@ == packet_at(
                            self.model().edges,
                            header_builder,
                            model_run(self@, run),
                            i,
                        )
                    &&& forall|i: int|
                        0 <= i < run.len() ==> (#[trigger] packets@[i]).direction()
                            == self.model().edges[model_run(
                            self@,
                            run,
                        )[i].edge as int].symbol.direction()
                    &&& packets_in_order(packets@, start_time)
                    &&& *final(rng) == old(rng).skip(3 * run.len() as int)
                },
                Err(SampleError::StepLimitExceeded) => {
                    &&& self@.overruns(*old(rng), start_time)
                    &&& *final(rng) == old(rng).skip(3 * self@.step_bound() as int)
                },
            },
    {
        proof {
            use_type_invariant(self);
        }
        let run: Vec<Transition> = match self.walk(rng, start_time) {
            Ok(run) => run,
            Err(error) => {
                return Err(error);
            },
        };
        proof {
            let named = self@.sampled_run(*old(rng), start_time);
            lemma_run_unique(self@, *old(rng), start_time, run@, named);
        }
        let mut steps: Vec<Transition> = Vec::with_capacity(run.len());
        let mut i: usize = 0;
        while i < run.len()
            invariant
                i <= run@.len(),
                self.inv(),
                steps@.len() == i,
                forall|j: int| 0 <= j < run@.len() ==> (#[trigger] run@[j]).edge < self@.edges.len(),
                forall|j: int| 0 <= j < i ==> #[trigger] steps@[j] == model_run(self@, run@)[j],
                forall|j: int| 0 <= j < i ==> (#[trigger] steps@[j]).edge < self.model@.edges.len(),
            decreases run.len() - i,
        {
            let step: Transition = run[i];
            steps.push(
                Transition {
                    edge: self.edges[step.edge].symbol.model_edge,
                    ts: step.ts,
                    payload_draw: step.payload_draw,
                },
            );
            i = i + 1;
        }
        proof {
            assert(steps@ =~= model_run(self@, run@));
        }
        Ok(build_packets(self.model.edges(), &steps, header_builder))
    }
}

/// The steps of a run of a product as steps of the model: each product edge
/// is replaced by the model edge it stands for.
pub open spec fn model_run(product: AutomatonView<PairedEdge>, run: Seq<Transition>) -> Seq<
    Transition,
> {
    Seq::new(
        run.len(),
        |i: int|
            Transition {
                edge: product.edges[run[i].edge as int].symbol.model_edge,
                ts: run[i].ts,
                payload_draw: run[i].payload_draw,
            },
    )
}

impl<E: EdgeType> TimedAutomaton<E> {
    /// Builds the product of the automaton and a constraint.
    ///
    /// There is no product where the constraint is not well formed, where
    /// the product would be too large, or where the constraint accepts no
    /// run of the automaton.
    pub fn intersect_automata<'a, M: Matcher<E>>(
        &'a self,
        constraint: &ConstraintAutomaton<M>,
    ) -> (outcome: Result<ConstrainedAutomaton<'a, E>, IntersectionError>)
        ensures
            self@.wf(),
            match outcome {
                Ok(product) => {
                    &&& constraint.wf()
                    &&& product_fits(self@, *constraint)
                    &&& can_finish(
                        self@,
                        *constraint,
                        pair(self@.initial, constraint.initial as int, constraint.width()),
                    )
                    &&& product@ == product_view(self@, *constraint)
                    &&& product.model() == self@
                },
                Err(IntersectionError::InvalidConstraint) => !constraint.wf(),
                Err(IntersectionError::TooLarge) => constraint.wf() && !product_fits(
                    self@,
                    *constraint,
                ),
                Err(IntersectionError::Unsatisfiable) => {
                    &&& constraint.wf()
                    &&& product_fits(self@, *constraint)
                    &&& !can_finish(
                        self@,
                        *constraint,
                        pair(self@.initial, constraint.initial as int, constraint.width()),
                    )
                },
            },
    {
        let count: usize = self.states().len();
        if !constraint.is_wf() {
            return Err(IntersectionError::InvalidConstraint);
        }
        let width: usize = constraint.accepting.len();
        let arcs: usize = self.edges().len();
        let pairs: usize = match count.checked_mul(width) {
            Some(pairs) => pairs,
            None => {
                return Err(IntersectionError::TooLarge);
            },
        };
        if pairs > u32::MAX as usize || arcs.checked_mul(width).is_none() {
            return Err(IntersectionError::TooLarge);
        }
        let raw: Vec<Edge<PairedEdge>> = build_raw_arcs(self, constraint);
        proof {
            assert forall|k: int|
                #![trigger raw@[k]]
                0 <= k < raw@.len() implies raw@[k].src < pairs && raw@[k].dst < pairs by {
                lemma_product_edge_in_range(self@, *constraint, k);
            }
        }
        let finishing: Vec<bool> = mark_leading(&raw, mark_goals(self, constraint));
        proof {
            lemma_pair_bound(
                self@.initial,
                constraint.initial as int,
                width as int,
                count as int,
            );
        }
        let initial: usize = self.initial() * width + constraint.initial;
        if !finishing[initial] {
            return Err(IntersectionError::Unsatisfiable);
        }
        let edges: Vec<Edge<PairedEdge>> = cut_arcs::<E, M>(
            raw,
            &finishing,
            Ghost(self@),
            Ghost(*constraint),
        );
        let totals: Vec<u32> = sum_weights::<E, M>(
            &edges,
            pairs,
            Ghost(self@),
            Ghost(*constraint),
        );
        proof {
            let built = AutomatonView {
                states: Seq::new(totals@.len(), |q: int| q as u32),
                initial: initial as int,
                edges: edges@,
                max_steps: self@.max_steps,
            };
            assert(built.states =~= product_view(self@, *constraint).states);
            assert(built == product_view(self@, *constraint));
            assert forall|k: int|
                #![trigger built.edges[k]]
                0 <= k < built.edges.len() implies built.edges[k].src < totals@.len()
                && built.edges[k].dst < totals@.len() && built.edges[k].symbol.model_edge
                < self@.edges.len() by {
                lemma_product_edge_in_range(self@, *constraint, k);
            }
            assert(walkable(built, totals@));
        }
        Ok(ConstrainedAutomaton { model: self, initial, edges, totals })
    }
}

/// Whether the constraint accepts a run of the product: every step is a
/// step of both automata, and the run ends at a dead end of the model while
/// the constraint is in an accepting state.
pub open spec fn accepted<E, M: Matcher<E>, R: RandomSource>(
    model: AutomatonView<E>,
    constraint: ConstraintAutomaton<M>,
    rng: R,
    start_time: u64,
    run: Seq<Transition>,
) -> bool {
    let product = product_view(model, constraint);
    &&& forall|i: int|
        0 <= i < run.len() ==> step_allowed(
            model,
            constraint,
            product.standing(rng, start_time, i).state,
            (#[trigger] run[i]).edge as int,
            product.standing(rng, start_time, i + 1).state,
        )
    &&& is_goal(model, constraint, product.standing(rng, start_time, run.len() as int).state)
}

/// The weight that leaves a state is at least the weight of each edge that
/// leaves it.
proof fn lemma_edge_counts<E>(edges: Seq<Edge<E>>, k: int)
    requires
        0 <= k < edges.len(),
    ensures
        out_weight(edges, edges[k].src as int, edges.len() as int) >= edges[k].weight,
{
    let state = edges[k].src as int;
    lemma_out_weight_nonnegative(edges, state, k);
    lemma_out_weight_monotonic(edges, state, k + 1, edges.len() as int);
}

/// A path to a pair at which a run may end starts at such a pair or at a
/// pair that a product edge of positive weight leaves.
proof fn lemma_path_goes_on<E: EdgeType, M: Matcher<E>>(
    model: AutomatonView<E>,
    constraint: ConstraintAutomaton<M>,
    path: Seq<int>,
)
    requires
        model.wf(),
        constraint.wf(),
        product_fits(model, constraint),
        is_path(raw_arcs(model, constraint), path),
        0 <= path.last() < model.states.len() * constraint.width(),
        is_goal(model, constraint, path.last()),
    ensures
        is_goal(model, constraint, path[0]) || product_view(model, constraint).total_weight(
            path[0],
        ) > 0,
    decreases path.len(),
{
    let raw = raw_arcs(model, constraint);
    let cut = product_edges(model, constraint);
    if path.len() > 1 {
        let rest = path.skip(1);
        assert(has_edge(raw, path[0int], path[0int + 1]));
        let k: int = choose|k: int|
            #![trigger raw[k]]
            0 <= k < raw.len() && raw[k].src == path[0] && raw[k].dst == path[1];
        assert forall|j: int| 0 <= j < rest.len() - 1 implies has_edge(
            raw,
            #[trigger] rest[j],
            rest[j + 1],
        ) by {
            assert(has_edge(raw, path[j + 1], path[j + 1 + 1]));
        }
        assert(is_path(raw, rest));
        assert(rest.last() == path.last());
        lemma_product_edge_in_range(model, constraint, k);
        assert(raw[k] == raw_arc(model, constraint, k));
        if raw[k].weight > 0 {
            assert(rest[0] == path[1]);
            assert(goals(model, constraint)[path.last()]);
            assert(reachable(raw, path[1], path.last()));
            assert(can_finish(model, constraint, path[1]));
            assert(cut[k] == product_edge(model, constraint, k));
            lemma_edge_counts(cut, k);
        } else {
            assert(rest[0] == path[0]);
            lemma_path_goes_on(model, constraint, rest);
        }
    }
}

/// A pair from which an accepted end can be reached, and which no product
/// edge of positive weight leaves, is a pair at which a run may end.
pub proof fn lemma_dead_end_is_goal<E: EdgeType, M: Matcher<E>>(
    model: AutomatonView<E>,
    constraint: ConstraintAutomaton<M>,
    q: int,
)
    requires
        model.wf(),
        constraint.wf(),
        product_fits(model, constraint),
        can_finish(model, constraint, q),
        product_view(model, constraint).is_dead_end(q),
    ensures
        is_goal(model, constraint, q),
{
    let raw = raw_arcs(model, constraint);
    let goal: int = choose|goal: int|
        0 <= goal < goals(model, constraint).len() && #[trigger] goals(model, constraint)[goal]
            && reachable(raw, q, goal);
    let path: Seq<int> = choose|path: Seq<int>| #[trigger]
        is_path(raw, path) && path[0] == q && path.last() == goal;
    lemma_path_goes_on(model, constraint, path);
}

/// While a run of the product goes on, it is at a pair from which an
/// accepted end can be reached, and every step it has taken is a step of
/// both automata.
proof fn lemma_run_stays_finishing<E: EdgeType, M: Matcher<E>, R: RandomSource>(
    model: AutomatonView<E>,
    constraint: ConstraintAutomaton<M>,
    rng: R,
    start_time: u64,
    i: int,
)
    requires
        model.wf(),
        constraint.wf(),
        product_fits(model, constraint),
        can_finish(
            model,
            constraint,
            pair(model.initial, constraint.initial as int, constraint.width()),
        ),
        0 <= i,
        forall|j: int|
            0 <= j < i ==> !product_view(model, constraint).is_dead_end(
                (#[trigger] product_view(model, constraint).standing(rng, start_time, j)).state,
            ),
    ensures
        ({
            let product = product_view(model, constraint);
            let here = product.standing(rng, start_time, i).state;
            &&& 0 <= here < model.states.len() * constraint.width()
            &&& can_finish(model, constraint, here)
            &&& i > 0 ==> step_allowed(
                model,
                constraint,
                product.standing(rng, start_time, i - 1).state,
                product.transition(rng, start_time, i - 1).edge as int,
                here,
            )
        }),
    decreases i,
{
    let product = product_view(model, constraint);
    let width = constraint.width();
    if i == 0 {
        lemma_pair_bound(
            model.initial,
            constraint.initial as int,
            width,
            model.states.len() as int,
        );
    } else {
        lemma_run_stays_finishing(model, constraint, rng, start_time, i - 1);
        let before = product.standing(rng, start_time, i - 1);
        lemma_unpair(before.state, width, model.states.len() as int);
        lemma_weight_below_model(
            model,
            constraint,
            before.state / width,
            before.state % width,
            model.edges.len() as int,
        );
        lemma_out_weight_nonnegative(product.edges, before.state, product.edges.len() as int);
        assert(0 <= model.total_weight(before.state / width) <= u32::MAX);
        lemma_step_takes_edge(product, rng, 3 * (i - 1), before.state, before.now);
        let k = product.transition(rng, start_time, i - 1).edge as int;
        assert(product.transition(rng, start_time, i - 1) == product.step(
            rng,
            3 * (i - 1),
            before.state,
            before.now,
        ));
        lemma_product_edge_in_range(model, constraint, k);
        assert(product.edges[k] == product_edge(model, constraint, k));
        assert(product.standing(rng, start_time, i).state == product.edges[k].dst);
    }
}

/// Every run of a product is accepted by the constraint: each of its steps
/// is a step of the model, taken while the constraint takes a matching
/// step, and it ends at a dead end of the model while the constraint is in
/// an accepting state.
pub proof fn lemma_constrained_run_is_accepted<E: EdgeType, M: Matcher<E>, R: RandomSource>(
    model: AutomatonView<E>,
    constraint: ConstraintAutomaton<M>,
    rng: R,
    start_time: u64,
    run: Seq<Transition>,
)
    requires
        model.wf(),
        constraint.wf(),
        product_fits(model, constraint),
        can_finish(
            model,
            constraint,
            pair(model.initial, constraint.initial as int, constraint.width()),
        ),
        product_view(model, constraint).is_run(rng, start_time, run),
    ensures
        accepted(model, constraint, rng, start_time, run),
{
    let product = product_view(model, constraint);
    assert forall|i: int| 0 <= i < run.len() implies step_allowed(
        model,
        constraint,
        product.standing(rng, start_time, i).state,
        (#[trigger] run[i]).edge as int,
        product.standing(rng, start_time, i + 1).state,
    ) by {
        lemma_run_stays_finishing(model, constraint, rng, start_time, i + 1);
        assert(run[i] == product.transition(rng, start_time, i));
    }
    lemma_run_stays_finishing(model, constraint, rng, start_time, run.len() as int);
    lemma_dead_end_is_goal(
        model,
        constraint,
        product.standing(rng, start_time, run.len() as int).state,
    );
}

} // verus!
