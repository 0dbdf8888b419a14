//! Constraints that are built from a flow: the number of packets that a run
//! emits in each direction.

use crate::automaton::AutomatonView;
use crate::flow::lemma_count_next;
use crate::flow::packets_in;
use crate::graph::Edge;
use crate::product::accepted;
use crate::product::first_match;
use crate::product::lemma_pair;
use crate::product::lemma_product_edge_in_range;
use crate::product::model_run;
use crate::product::pair;
use crate::product::product_fits;
use crate::product::product_view;
use crate::product::step_allowed;
use crate::product::ConstraintAutomaton;
use crate::product::ConstraintEdge;
use crate::product::Matcher;
use crate::random::RandomSource;
use crate::sampling::Transition;
use crate::structs::EdgeType;
use crate::structs::PacketDirection;
use crate::structs::Protocol;
use vstd::prelude::*;

verus! {

/// The test that an edge's packet travels in a given direction.
#[derive(Debug, Clone, Copy, PartialEq, Eq, Structural)]
pub struct DirectionMatcher {
    pub direction: PacketDirection,
}

impl<E: EdgeType> Matcher<E> for DirectionMatcher {
    open spec fn matches(&self, symbol: E) -> bool {
        symbol.direction() == self.direction
    }

    fn test(&self, symbol: &E) -> (hit: bool) {
        symbol.get_direction() == self.direction
    }
}

/// The number of counting states of the constraint that allows `forward`
/// packets forward and `backward` packets backward: one for each pair of
/// counts within these bounds.
pub open spec fn count_cells(forward: int, backward: int) -> int {
    (forward + 1) * (backward + 1)
}

/// Edge number `k` of the packet count constraint. State `f * (backward +
/// 1) + b` stands for `f` packets forward and `b` packets backward so far;
/// the state after the counting states is the state of a run that has
/// emitted too many packets. Each state has two edges, first the one for a
/// packet forward, then the one for a packet backward; each leads to the
/// state with one more packet counted, or, where that is more than
/// allowed, to the state of too many packets.
pub open spec fn count_edge(forward: int, backward: int, k: int) -> ConstraintEdge<
    DirectionMatcher,
> {
    let columns = backward + 1;
    let cells = count_cells(forward, backward);
    let state = k / 2;
    if k % 2 == 0 {
        ConstraintEdge {
            src: state as usize,
            dst: if state < cells && state / columns < forward {
                (state + columns) as usize
            } else {
                cells as usize
            },
            matcher: DirectionMatcher { direction: PacketDirection::Forward },
        }
    } else {
        ConstraintEdge {
            src: state as usize,
            dst: if state < cells && state % columns < backward {
                (state + 1) as usize
            } else {
                cells as usize
            },
            matcher: DirectionMatcher { direction: PacketDirection::Backward },
        }
    }
}

/// Whether a constraint is the one that accepts the runs with exactly
/// `forward` packets forward and `backward` packets backward: it starts
/// with nothing counted, accepts in the state where both counts are
/// reached, and has the edges of `count_edge`.
pub open spec fn counts_packets(
    constraint: ConstraintAutomaton<DirectionMatcher>,
    forward: int,
    backward: int,
) -> bool {
    let cells = count_cells(forward, backward);
    &&& constraint.initial == 0
    &&& constraint.accepting@ == Seq::new((cells + 1) as nat, |state: int| state == cells - 1)
    &&& constraint.edges@ == Seq::new(
        (2 * (cells + 1)) as nat,
        |k: int| count_edge(forward, backward, k),
    )
}

/// Whether the packet count constraint for these counts can be held: its
/// edges can be counted in a machine word.
pub open spec fn counts_fit(forward: int, backward: int) -> bool {
    2 * (count_cells(forward, backward) + 1) <= usize::MAX
}

/// The number of edges of a packet count constraint, where it can be
/// held.
fn count_edges_of(forward: u32, backward: u32) -> (edges: Option<usize>)
    ensures
        edges is Some == counts_fit(forward as int, backward as int),
        edges matches Some(count) ==> count == 2 * (count_cells(forward as int, backward as int)
            + 1),
{
    let rows: u128 = forward as u128 + 1;
    let columns: u128 = backward as u128 + 1;
    assert(rows * columns <= 0x1_0000_0000 * 0x1_0000_0000) by (nonlinear_arith)
        requires
            0 <= rows <= 0x1_0000_0000,
            0 <= columns <= 0x1_0000_0000,
    ;
    let count: u128 = 2 * (rows * columns + 1);
    if count <= usize::MAX as u128 {
        Some(count as usize)
    } else {
        None
    }
}

/// Builds the constraint that accepts the runs with exactly `forward`
/// packets forward and `backward` packets backward. There is none where it
/// would be too large to be held.
pub fn packet_count_constraint(forward: u32, backward: u32) -> (constraint: Option<
    ConstraintAutomaton<DirectionMatcher>,
>)
    ensures
        constraint is Some == counts_fit(forward as int, backward as int),
        constraint matches Some(built) ==> built.wf() && counts_packets(
            built,
            forward as int,
            backward as int,
        ),
{
    let edge_count: usize = match count_edges_of(forward, backward) {
        Some(count) => count,
        None => {
            return None;
        },
    };
    let states: usize = edge_count / 2;
    let cells: usize = states - 1;
    let ghost rows: int = forward + 1;
    let ghost wide: int = backward + 1;
    assert(cells == rows * wide);
    assert(wide <= cells) by (nonlinear_arith)
        requires
            cells == rows * wide,
            rows >= 1,
            wide >= 1,
    ;
    let columns: usize = backward as usize + 1;
    let mut accepting: Vec<bool> = Vec::with_capacity(states);
    let mut state: usize = 0;
    while state < states
        invariant
            state <= states,
            states == cells + 1,
            accepting@.len() == state,
            forall|q: int| 0 <= q < state ==> #[trigger] accepting@[q] == (q == cells - 1),
        decreases states - state,
    {
        accepting.push(state + 1 == cells);
        state = state + 1;
    }
    let mut edges: Vec<ConstraintEdge<DirectionMatcher>> = Vec::with_capacity(edge_count);
    let mut state: usize = 0;
    while state < states
        invariant
            state <= states,
            states == cells + 1,
            2 * states <= usize::MAX,
            columns == backward + 1,
            cells == count_cells(forward as int, backward as int),
            edges@.len() == 2 * state,
            forall|k: int|
                0 <= k < edges@.len() ==> #[trigger] edges@[k] == count_edge(
                    forward as int,
                    backward as int,
                    k,
                ),
            forall|k: int|
                #![trigger edges@[k]]
                0 <= k < edges@.len() ==> edges@[k].src < states && edges@[k].dst < states,
        decreases states - state,
    {
        let counted: bool = state < cells;
        let onward: usize = if counted && state / columns < forward as usize {
            proof {
                let row = state as int / columns as int;
                let column = state as int % columns as int;
                vstd::arithmetic::div_mod::lemma_fundamental_div_mod(state as int, columns as int);
                vstd::arithmetic::div_mod::lemma_mod_pos_bound(state as int, columns as int);
                assert(columns * row + columns <= forward * columns) by (nonlinear_arith)
                    requires
                        0 <= row < forward,
                        columns > 0,
                ;
                assert((forward + 1) * columns == forward * columns + columns)
                    by (nonlinear_arith);
            }
            state + columns
        } else {
            cells
        };
        let across: usize = if counted && state % columns < backward as usize {
            state + 1
        } else {
            cells
        };
        edges.push(
            ConstraintEdge {
                src: state,
                dst: onward,
                matcher: DirectionMatcher { direction: PacketDirection::Forward },
            },
        );
        edges.push(
            ConstraintEdge {
                src: state,
                dst: across,
                matcher: DirectionMatcher { direction: PacketDirection::Backward },
            },
        );
        state = state + 1;
    }
    let constraint = ConstraintAutomaton { initial: 0, accepting, edges };
    proof {
        assert(constraint.accepting@ =~= Seq::new(
            (cells + 1) as nat,
            |state: int| state == cells - 1,
        ));
        assert(constraint.edges@ =~= Seq::new(
            (2 * (cells + 1)) as nat,
            |k: int| count_edge(forward as int, backward as int, k),
        ));
    }
    Some(constraint)
}

/// The number of steps, among the first `upto` of a run, whose packet
/// travels in `direction`.
pub open spec fn steps_in<E: EdgeType>(
    edges: Seq<Edge<E>>,
    run: Seq<Transition>,
    direction: PacketDirection,
    upto: int,
) -> int
    decreases upto,
{
    if upto <= 0 {
        0
    } else {
        let symbol = edges[run[upto - 1].edge as int].symbol;
        steps_in(edges, run, direction, upto - 1) + if symbol.direction() == direction {
            1int
        } else {
            0
        }
    }
}

/// From a counting state, a packet count constraint takes the state's edge
/// for a packet forward with a symbol that travels forward, and the
/// state's edge for a packet backward with any other symbol.
proof fn lemma_count_first_match<E: EdgeType>(
    constraint: ConstraintAutomaton<DirectionMatcher>,
    forward: int,
    backward: int,
    stage: int,
    symbol: E,
    from: int,
)
    requires
        0 <= forward,
        0 <= backward,
        counts_packets(constraint, forward, backward),
        0 <= stage < constraint.width(),
        0 <= from <= 2 * stage,
    ensures
        first_match(constraint.edges@, stage, symbol, from) == Some(
            if symbol.direction() == PacketDirection::Forward {
                2 * stage
            } else {
                2 * stage + 1
            },
        ),
    decreases 2 * stage - from,
{
    let edges = constraint.edges@;
    assert(edges.len() == constraint.edges.len());
    assert(edges.len() == 2 * constraint.width());
    assert(edges[from] == count_edge(forward, backward, from));
    assert(edges[from].src == from / 2);
    if from < 2 * stage {
        assert(edges[from].src != stage);
        lemma_count_first_match(constraint, forward, backward, stage, symbol, from + 1);
    } else {
        assert(edges[from + 1] == count_edge(forward, backward, from + 1));
        assert(edges[from + 1].src == stage);
        assert(edges[from].matcher.direction == PacketDirection::Forward);
        assert(edges[from + 1].matcher.direction == PacketDirection::Backward);
        if symbol.direction() != PacketDirection::Forward {
            assert(!edges[from].matcher.matches(symbol));
            assert(edges[from + 1].matcher.matches(symbol));
            assert(first_match(edges, stage, symbol, from + 1) == Some(from + 1));
            assert(first_match(edges, stage, symbol, from) == first_match(
                edges,
                stage,
                symbol,
                from + 1,
            ));
        } else {
            assert(edges[from].matcher.matches(symbol));
        }
    }
}

/// Whether a state of a packet count constraint stands for the given
/// counts, or is the state of too many packets.
spec fn counted(forward: int, backward: int, stage: int, sent: int, received: int) -> bool {
    ||| stage == count_cells(forward, backward)
    ||| {
        &&& 0 <= sent <= forward
        &&& 0 <= received <= backward
        &&& stage == sent * (backward + 1) + received
    }
}

/// The state that a packet count constraint is in after some steps of an
/// accepted run stands for the packets that these steps have emitted, or
/// for too many packets.
proof fn lemma_counts_follow<E: EdgeType, R: RandomSource>(
    model: AutomatonView<E>,
    constraint: ConstraintAutomaton<DirectionMatcher>,
    forward: int,
    backward: int,
    rng: R,
    start_time: u64,
    run: Seq<Transition>,
    i: int,
)
    requires
        model.wf(),
        constraint.wf(),
        product_fits(model, constraint),
        0 <= forward,
        0 <= backward,
        counts_packets(constraint, forward, backward),
        accepted(model, constraint, rng, start_time, run),
        0 <= i <= run.len(),
    ensures
        ({
            let product = product_view(model, constraint);
            let steps = model_run(product, run);
            counted(
                forward,
                backward,
                product.standing(rng, start_time, i).state % constraint.width(),
                steps_in(model.edges, steps, PacketDirection::Forward, i),
                steps_in(model.edges, steps, PacketDirection::Backward, i),
            )
        }),
    decreases i,
{
    let product = product_view(model, constraint);
    let steps = model_run(product, run);
    let width = constraint.width();
    let columns = backward + 1;
    let cells = count_cells(forward, backward);
    assert(cells >= 1) by (nonlinear_arith)
        requires
            cells == (forward + 1) * (backward + 1),
            forward >= 0,
            backward >= 0,
    ;
    assert(width == cells + 1);
    if i == 0 {
        lemma_pair(model.initial, 0, width);
        let sent = steps_in(model.edges, steps, PacketDirection::Forward, 0);
        assert(sent * columns == 0) by (nonlinear_arith)
            requires
                sent == 0,
        ;
    } else {
        lemma_counts_follow(model, constraint, forward, backward, rng, start_time, run, i - 1);
        let from = product.standing(rng, start_time, i - 1).state;
        let to = product.standing(rng, start_time, i).state;
        let k = run[i - 1].edge as int;
        assert(step_allowed(model, constraint, from, k, product.standing(
            rng,
            start_time,
            i - 1 + 1,
        ).state));
        lemma_product_edge_in_range(model, constraint, k);
        let edge = model.edges[k / width];
        let stage = k % width;
        assert(product.edges[k].symbol.model_edge == k / width);
        assert(steps[i - 1].edge == k / width);
        lemma_pair(edge.src as int, stage, width);
        assert(from % width == stage);
        lemma_count_first_match(constraint, forward, backward, stage, edge.symbol, 0);
        let g = first_match(constraint.edges@, stage, edge.symbol, 0)->0;
        assert(constraint.edges@[g] == count_edge(forward, backward, g));
        let next = constraint.edges@[g].dst as int;
        lemma_pair(edge.dst as int, next, width);
        assert(to % width == next);
        let sent = steps_in(model.edges, steps, PacketDirection::Forward, i - 1);
        let received = steps_in(model.edges, steps, PacketDirection::Backward, i - 1);
        assert(constraint.accepting.len() == constraint.accepting@.len());
        assert(model.edges[steps[i - 1].edge as int] == edge);
        assert(g == if edge.symbol.direction() == PacketDirection::Forward {
            2 * stage
        } else {
            2 * stage + 1
        });
        if stage != cells {
            assert(stage == sent * columns + received);
            vstd::arithmetic::div_mod::lemma_fundamental_div_mod_converse(
                stage,
                columns,
                sent,
                received,
            );
            assert(sent * columns + received < cells) by (nonlinear_arith)
                requires
                    0 <= sent <= forward,
                    0 <= received <= backward,
                    columns == backward + 1,
                    cells == (forward + 1) * (backward + 1),
            ;
            assert((sent + 1) * columns + received == sent * columns + received + columns)
                by (nonlinear_arith);
            let sent_now = steps_in(model.edges, steps, PacketDirection::Forward, i);
            let received_now = steps_in(model.edges, steps, PacketDirection::Backward, i);
            if edge.symbol.direction() == PacketDirection::Forward {
                assert(sent_now == sent + 1 && received_now == received);
                if sent < forward {
                    assert((sent + 1) * columns + received < cells) by (nonlinear_arith)
                        requires
                            0 <= sent < forward,
                            0 <= received <= backward,
                            columns == backward + 1,
                            cells == (forward + 1) * (backward + 1),
                    ;
                    assert(g / 2 == stage && g % 2 == 0);
                    assert(stage / columns == sent);
                    assert(next == stage + columns);
                    assert(next == sent_now * columns + received_now);
                } else {
                    assert(next == cells);
                }
            } else {
                assert(sent_now == sent && received_now == received + 1);
                if received < backward {
                    assert(g / 2 == stage && g % 2 == 1);
                    assert(stage % columns == received);
                    assert(next == stage + 1);
                    assert(next == sent_now * columns + received_now);
                } else {
                    assert(next == cells);
                }
            }
        } else {
            assert(next == cells);
        }
    }
}

/// A run that a packet count constraint accepts emits exactly as many
/// packets in each direction as the constraint asks for.
pub proof fn lemma_counted_run<E: EdgeType, R: RandomSource>(
    model: AutomatonView<E>,
    constraint: ConstraintAutomaton<DirectionMatcher>,
    forward: int,
    backward: int,
    rng: R,
    start_time: u64,
    run: Seq<Transition>,
)
    requires
        model.wf(),
        constraint.wf(),
        product_fits(model, constraint),
        0 <= forward,
        0 <= backward,
        counts_packets(constraint, forward, backward),
        accepted(model, constraint, rng, start_time, run),
    ensures
        ({
            let steps = model_run(product_view(model, constraint), run);
            &&& steps_in(model.edges, steps, PacketDirection::Forward, run.len() as int) == forward
            &&& steps_in(model.edges, steps, PacketDirection::Backward, run.len() as int)
                == backward
        }),
{
    let product = product_view(model, constraint);
    let steps = model_run(product, run);
    let n = run.len() as int;
    let columns = backward + 1;
    let cells = count_cells(forward, backward);
    lemma_counts_follow(model, constraint, forward, backward, rng, start_time, run, n);
    let stage = product.standing(rng, start_time, n).state % constraint.width();
    let sent = steps_in(model.edges, steps, PacketDirection::Forward, n);
    let received = steps_in(model.edges, steps, PacketDirection::Backward, n);
    assert(constraint.accepting@[stage]);
    assert(cells >= 1) by (nonlinear_arith)
        requires
            cells == (forward + 1) * (backward + 1),
            forward >= 0,
            backward >= 0,
    ;
    vstd::arithmetic::div_mod::lemma_mod_pos_bound(
        product.standing(rng, start_time, n).state,
        constraint.width(),
    );
    assert(stage == cells - 1);
    assert(cells - 1 == forward * columns + backward) by (nonlinear_arith)
        requires
            cells == (forward + 1) * (backward + 1),
            columns == backward + 1,
    ;
    vstd::arithmetic::div_mod::lemma_fundamental_div_mod_converse(
        stage,
        columns,
        sent,
        received,
    );
    vstd::arithmetic::div_mod::lemma_fundamental_div_mod_converse(
        stage,
        columns,
        forward,
        backward,
    );
}

/// Packets that travel as the steps of their run do are as many, in each
/// direction, as the steps.
pub proof fn lemma_packets_counted<E: EdgeType, T: Protocol>(
    edges: Seq<Edge<E>>,
    run: Seq<Transition>,
    packets: Seq<T>,
    direction: PacketDirection,
    upto: int,
)
    requires
        packets.len() == run.len(),
        0 <= upto <= run.len(),
        forall|i: int|
            0 <= i < run.len() ==> (#[trigger] packets[i]).direction()
                == edges[run[i].edge as int].symbol.direction(),
    ensures
        packets_in(packets.take(upto), direction) == steps_in(edges, run, direction, upto),
    decreases upto,
{
    if upto > 0 {
        lemma_packets_counted(edges, run, packets, direction, upto - 1);
        lemma_count_next(packets, upto - 1, direction);
    } else {
        assert(packets.take(0).len() == 0);
        assert(packets_in(packets.take(0), direction) == 0);
    }
}

} // verus!
