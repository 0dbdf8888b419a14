//! Sampling: the random walk that selects one run of an automaton, and
//! the description of the run's packets.

use crate::automaton::AutomatonView;
use crate::graph::lemma_selects_exists;
use crate::graph::lemma_selects_unique;
use crate::graph::out_weight;
use crate::graph::selected;
use crate::graph::selects;
use crate::graph::Edge;
use crate::random::lemma_scale_bound;
use crate::random::scale;
use crate::random::spec_scale;
use crate::random::RandomSource;
use crate::structs::EdgeType;
use crate::structs::Payload;
use crate::structs::PayloadView;
use crate::structs::Protocol;
use crate::timing::later;
use crate::timing::spec_later;
use vstd::prelude::*;

verus! {

/// One step of a run: the edge taken, the instant of its packet, and the
/// draw from which the packet's payload is chosen.
#[derive(Debug, Clone, Copy, PartialEq, Eq, Structural)]
pub struct Transition {
    pub edge: usize,
    pub ts: u64,
    pub payload_draw: u32,
}

/// Why sampling gave no run.
#[derive(Debug, Clone, Copy, PartialEq, Eq, Structural)]
pub enum SampleError {
    /// The run did not reach a dead end within the step bound.
    StepLimitExceeded,
}

/// Where a run stands: the state it is in and the instant it has reached.
pub struct Standing {
    pub state: int,
    pub now: u64,
}

impl<E> AutomatonView<E> {
    /// The step that a run takes from `state` at instant `now` when its
    /// next three draws are the source's draws `k`, `k + 1` and `k + 2`:
    /// the first gives the delay, the second the edge, the third is kept
    /// for the payload.
    pub open spec fn step<R: RandomSource>(self, rng: R, k: int, state: int, now: u64)
        -> Transition {
        let edge = self.edge_for(state, rng.output(k + 1));
        Transition {
            edge: edge as usize,
            ts: spec_later(now, self.edges[edge].timing.spec_delay(rng.output(k))),
            payload_draw: rng.output(k + 2),
        }
    }

    /// Where the run from `start_time` stands after `i` steps, if it does
    /// not end earlier. Each step takes three draws.
    pub open spec fn standing<R: RandomSource>(self, rng: R, start_time: u64, i: int) -> Standing
        decreases i,
    {
        if i <= 0 {
            Standing { state: self.initial, now: start_time }
        } else {
            let before = self.standing(rng, start_time, i - 1);
            let taken = self.step(rng, 3 * (i - 1), before.state, before.now);
            Standing { state: self.edges[taken.edge as int].dst as int, now: taken.ts }
        }
    }

    /// Step `i` of the run from `start_time`.
    pub open spec fn transition<R: RandomSource>(self, rng: R, start_time: u64, i: int)
        -> Transition {
        let before = self.standing(rng, start_time, i);
        self.step(rng, 3 * i, before.state, before.now)
    }

    /// Whether the run from `start_time` ends after exactly `n` steps: it
    /// then stands at a dead end, and never before.
    pub open spec fn halts_at<R: RandomSource>(self, rng: R, start_time: u64, n: int) -> bool {
        &&& self.is_dead_end(self.standing(rng, start_time, n).state)
        &&& forall|i: int|
            0 <= i < n ==> !self.is_dead_end((#[trigger] self.standing(rng, start_time, i)).state)
    }

    /// Whether `run` is the run that the source's draws select from
    /// `start_time`: it leads from the initial state to the first dead end
    /// and holds each step on the way.
    pub open spec fn is_run<R: RandomSource>(
        self,
        rng: R,
        start_time: u64,
        run: Seq<Transition>,
    ) -> bool {
        &&& self.halts_at(rng, start_time, run.len() as int)
        &&& forall|i: int|
            0 <= i < run.len() ==> #[trigger] run[i] == self.transition(rng, start_time, i)
    }

    /// Whether the run from `start_time` is longer than the step bound
    /// allows: it reaches no dead end within that many steps.
    pub open spec fn overruns<R: RandomSource>(self, rng: R, start_time: u64) -> bool {
        forall|i: int|
            0 <= i <= self.step_bound() ==> !self.is_dead_end(
                (#[trigger] self.standing(rng, start_time, i)).state,
            )
    }
}

/// Whether the instants of a run never go back and none lies before
/// `start_time`.
pub open spec fn run_in_order(run: Seq<Transition>, start_time: u64) -> bool {
    &&& forall|i: int| 0 <= i < run.len() ==> start_time <= (#[trigger] run[i]).ts
    &&& forall|i: int, j: int|
        0 <= i <= j < run.len() ==> (#[trigger] run[i]).ts <= (#[trigger] run[j]).ts
}

/// Two runs that the same draws select from the same instant are one.
pub proof fn lemma_run_unique<E, R: RandomSource>(
    automaton: AutomatonView<E>,
    rng: R,
    start_time: u64,
    first: Seq<Transition>,
    second: Seq<Transition>,
)
    requires
        automaton.is_run(rng, start_time, first),
        automaton.is_run(rng, start_time, second),
    ensures
        first == second,
{
    if first.len() < second.len() {
        assert(!automaton.is_dead_end(
            automaton.standing(rng, start_time, first.len() as int).state,
        ));
    } else if second.len() < first.len() {
        assert(!automaton.is_dead_end(
            automaton.standing(rng, start_time, second.len() as int).state,
        ));
    }
    assert(first =~= second);
}

impl<E> AutomatonView<E> {
    /// The run that the source's draws select from `start_time`, where
    /// there is one.
    pub open spec fn sampled_run<R: RandomSource>(self, rng: R, start_time: u64) -> Seq<
        Transition,
    > {
        choose|run: Seq<Transition>| self.is_run(rng, start_time, run)
    }
}

/// Turns the steps of a run into packet descriptions, one at a time and in
/// order. The builder is the state that runs through one sampled run, such
/// as the sequence numbers of a connection: building a packet uses the
/// builder up and gives the builder for the next packet.
pub trait HeaderBuilder<E: EdgeType>: Sized {
    /// The packet descriptions that the builder makes.
    type Info: Protocol + View;

    /// The packet for `symbol` at instant `ts` with the given payload, and
    /// the builder for the packet after it.
    spec fn spec_build(self, symbol: E, payload: PayloadView, ts: u64) -> (
        <Self::Info as View>::V,
        Self,
    );

    fn build(self, symbol: &E, payload: Payload, ts: u64) -> (built: (Self::Info, Self))
        ensures
            (built.0@, built.1) == self.spec_build(*symbol, payload@, ts),
            built.0.ts() == ts,
            built.0.direction() == symbol.direction(),
            built.0.payload_size() == payload@.size(),
    ;
}

/// The payload of the packet that a step emits.
pub open spec fn payload_of<E: EdgeType>(edges: Seq<Edge<E>>, step: Transition) -> PayloadView {
    edges[step.edge as int].symbol.payload_type().spec_realize(step.payload_draw)
}

/// The builder as it stands when the first `i` packets of a run are built.
pub open spec fn builder_at<E: EdgeType, B: HeaderBuilder<E>>(
    edges: Seq<Edge<E>>,
    builder: B,
    run: Seq<Transition>,
    i: int,
) -> B
    decreases i,
{
    if i <= 0 {
        builder
    } else {
        builder_at(edges, builder, run, i - 1).spec_build(
            edges[run[i - 1].edge as int].symbol,
            payload_of(edges, run[i - 1]),
            run[i - 1].ts,
        ).1
    }
}

/// Packet `i` of a run.
pub open spec fn packet_at<E: EdgeType, B: HeaderBuilder<E>>(
    edges: Seq<Edge<E>>,
    builder: B,
    run: Seq<Transition>,
    i: int,
) -> <B::Info as View>::V {
    builder_at(edges, builder, run, i).spec_build(
        edges[run[i].edge as int].symbol,
        payload_of(edges, run[i]),
        run[i].ts,
    ).0
}

/// Whether the instants of the packets never go back and none lies before
/// `start_time`.
pub open spec fn packets_in_order<T: Protocol>(packets: Seq<T>, start_time: u64) -> bool {
    &&& forall|i: int| 0 <= i < packets.len() ==> start_time <= (#[trigger] packets[i]).ts()
    &&& forall|i: int, j: int|
        0 <= i <= j < packets.len() ==> (#[trigger] packets[i]).ts() <= (#[trigger] packets[j]).ts()
}

/// A step from a state with outgoing weight takes an edge of positive
/// weight that leaves this state.
pub proof fn lemma_step_takes_edge<E, R: RandomSource>(
    automaton: AutomatonView<E>,
    rng: R,
    k: int,
    state: int,
    now: u64,
)
    requires
        automaton.edges.len() <= usize::MAX,
        0 < automaton.total_weight(state) <= u32::MAX,
    ensures
        ({
            let edge = automaton.step(rng, k, state, now).edge as int;
            &&& 0 <= edge < automaton.edges.len()
            &&& automaton.edges[edge].src == state
            &&& automaton.edges[edge].weight > 0
        }),
{
    let total = automaton.total_weight(state);
    let draw = rng.output(k + 1);
    lemma_scale_bound(draw, total as u64);
    let target = spec_scale(draw, total as u64) as int;
    lemma_selects_exists(automaton.edges, state, target, automaton.edges.len() as int);
    let edge = selected(automaton.edges, state, target);
    assert(selects(automaton.edges, state, target, edge));
    assert(automaton.edge_for(state, draw) == edge);
    assert(out_weight(automaton.edges, state, edge + 1) == out_weight(
        automaton.edges,
        state,
        edge,
    ) + automaton.edges[edge].weight);
}

/// Whether `totals` holds, for each state of a graph, the weight that
/// leaves it, and the graph's edges and initial state lie among these
/// states. This is what a walk needs of a graph.
pub open spec fn walkable<E>(automaton: AutomatonView<E>, totals: Seq<u32>) -> bool {
    &&& 0 <= automaton.initial < totals.len()
    &&& forall|i: int|
        #![trigger automaton.edges[i]]
        0 <= i < automaton.edges.len() ==> automaton.edges[i].src < totals.len()
            && automaton.edges[i].dst < totals.len()
    &&& forall|s: int|
        0 <= s < totals.len() ==> #[trigger] totals[s] == automaton.total_weight(s)
}

/// The edge that a draw selects at `state` among `edges`, where `totals`
/// holds the weight that leaves each state; `None` at a dead end or for a
/// number that is no state.
pub(crate) fn choose_among<E>(
    edges: &Vec<Edge<E>>,
    totals: &Vec<u32>,
    state: usize,
    draw: u32,
) -> (choice: Option<usize>)
    requires
        forall|s: int|
            0 <= s < totals@.len() ==> #[trigger] totals@[s] == out_weight(
                edges@,
                s,
                edges@.len() as int,
            ),
    ensures
        match choice {
            Some(k) => {
                let total = out_weight(edges@, state as int, edges@.len() as int);
                &&& state < totals@.len()
                &&& total != 0
                &&& k == selected(edges@, state as int, spec_scale(draw, total as u64) as int)
                &&& selects(edges@, state as int, spec_scale(draw, total as u64) as int, k as int)
            },
            None => state >= totals@.len() || out_weight(
                edges@,
                state as int,
                edges@.len() as int,
            ) == 0,
        },
{
    if state >= totals.len() {
        return None;
    }
    let total: u32 = totals[state];
    if total == 0 {
        return None;
    }
    let target: u64 = scale(draw, total as u64);
    let mut reached: u64 = 0;
    let mut i: usize = 0;
    while i < edges.len()
        invariant
            i <= edges.len(),
            state < totals@.len(),
            total == out_weight(edges@, state as int, edges@.len() as int),
            target == spec_scale(draw, total as u64),
            target < total,
            reached == out_weight(edges@, state as int, i as int),
            reached <= target,
        decreases edges.len() - i,
    {
        if edges[i].src == state {
            let next: u64 = reached + edges[i].weight as u64;
            if target < next {
                proof {
                    assert(selects(edges@, state as int, target as int, i as int));
                    let k: int = choose|k: int| selects(edges@, state as int, target as int, k);
                    lemma_selects_unique(edges@, state as int, target as int, k, i as int);
                }
                return Some(i);
            }
            reached = next;
        }
        i = i + 1;
    }
    None
}

/// Walks a graph: from the initial state at `start_time`, take steps until
/// a dead end is reached or `bound` steps are taken.
pub(crate) fn walk_edges<E, R: RandomSource>(
    edges: &Vec<Edge<E>>,
    totals: &Vec<u32>,
    initial: usize,
    bound: u32,
    rng: &mut R,
    start_time: u64,
    Ghost(automaton): Ghost<AutomatonView<E>>,
) -> (outcome: Result<Vec<Transition>, SampleError>)
    requires
        automaton.edges == edges@,
        automaton.initial == initial,
        automaton.step_bound() == bound,
        walkable(automaton, totals@),
    ensures
        match outcome {
            Ok(run) => {
                &&& automaton.is_run(*old(rng), start_time, run@)
                &&& run@.len() <= automaton.step_bound()
                &&& run_in_order(run@, start_time)
                &&& forall|i: int|
                    0 <= i < run@.len() ==> (#[trigger] run@[i]).edge < automaton.edges.len()
                &&& *final(rng) == old(rng).skip(3 * run@.len() as int)
            },
            Err(SampleError::StepLimitExceeded) => {
                &&& automaton.overruns(*old(rng), start_time)
                &&& *final(rng) == old(rng).skip(3 * automaton.step_bound() as int)
            },
        },
{
    let mut run: Vec<Transition> = Vec::new();
    let mut state: usize = initial;
    let mut now: u64 = start_time;
    let mut steps: u32 = 0;
    proof {
        rng.lemma_skip(0, 0);
    }
    loop
        invariant
            automaton.edges == edges@,
            automaton.initial == initial,
            automaton.step_bound() == bound,
            walkable(automaton, totals@),
            steps <= bound,
            run@.len() == steps,
            state < totals@.len(),
            start_time <= now,
            automaton.standing(*old(rng), start_time, steps as int) == (Standing {
                state: state as int,
                now,
            }),
            forall|i: int|
                0 <= i < steps ==> !automaton.is_dead_end(
                    (#[trigger] automaton.standing(*old(rng), start_time, i)).state,
                ),
            forall|i: int|
                0 <= i < steps ==> #[trigger] run@[i] == automaton.transition(
                    *old(rng),
                    start_time,
                    i,
                ),
            forall|i: int| 0 <= i < steps ==> (#[trigger] run@[i]).edge < automaton.edges.len(),
            forall|i: int| 0 <= i < steps ==> start_time <= (#[trigger] run@[i]).ts <= now,
            forall|i: int, j: int|
                0 <= i <= j < steps ==> (#[trigger] run@[i]).ts <= (#[trigger] run@[j]).ts,
            *rng == old(rng).skip(3 * steps),
        decreases bound - steps,
    {
        let total: u32 = totals[state];
        assert(total == automaton.total_weight(state as int));
        if total == 0 {
            return Ok(run);
        }
        if steps == bound {
            proof {
                assert forall|i: int| 0 <= i <= automaton.step_bound() implies !automaton.is_dead_end(
                    (#[trigger] automaton.standing(*old(rng), start_time, i)).state,
                ) by {
                    if i == steps {
                    }
                }
            }
            return Err(SampleError::StepLimitExceeded);
        }
        let ghost before: R = *rng;
        let delay_draw: u32 = rng.next_u32();
        let edge_draw: u32 = rng.next_u32();
        let payload_draw: u32 = rng.next_u32();
        proof {
            old(rng).lemma_skip(3 * steps, 0);
            old(rng).lemma_skip(3 * steps, 1);
            old(rng).lemma_skip(3 * steps, 2);
            before.lemma_skip(1, 0);
            before.lemma_skip(1, 1);
            before.lemma_skip(2, 0);
            before.lemma_skip(2, 1);
            old(rng).lemma_skip(3 * steps, 3);
            assert(delay_draw == old(rng).output(3 * steps));
            assert(edge_draw == old(rng).output(3 * steps + 1));
            assert(payload_draw == old(rng).output(3 * steps + 2));
            assert(*rng == old(rng).skip(3 * (steps + 1)));
        }
        let chosen: usize = match choose_among(edges, totals, state, edge_draw) {
            Some(k) => k,
            None => {
                return Err(SampleError::StepLimitExceeded);
            },
        };
        let edge: &Edge<E> = &edges[chosen];
        let ts: u64 = later(now, edge.timing.delay(delay_draw));
        let taken: Transition = Transition { edge: chosen, ts, payload_draw };
        proof {
            assert(taken == automaton.step(*old(rng), 3 * steps, state as int, now));
            assert(taken == automaton.transition(*old(rng), start_time, steps as int));
            assert(automaton.standing(*old(rng), start_time, steps + 1) == (Standing {
                state: edge.dst as int,
                now: ts,
            }));
        }
        run.push(taken);
        state = edge.dst;
        now = ts;
        steps = steps + 1;
    }
}

/// Describes the packets of a run over `edges`: `builder` turns the steps
/// into packet descriptions, in order, each with the payload that its
/// step's draw selects from the edge's payload model.
pub(crate) fn build_packets<E: EdgeType, B: HeaderBuilder<E>>(
    edges: &Vec<Edge<E>>,
    run: &Vec<Transition>,
    header_builder: B,
) -> (packets: Vec<B::Info>)
    requires
        forall|j: int| 0 <= j < run@.len() ==> (#[trigger] run@[j]).edge < edges@.len(),
    ensures
        packets@.len() == run@.len(),
        forall|i: int|
            0 <= i < run@.len() ==> (#[trigger] packets@[i])@ == packet_at(
                edges@,
                header_builder,
                run@,
                i,
            ),
        forall|i: int| 0 <= i < run@.len() ==> (#[trigger] packets@[i]).ts() == run@[i].ts,
        forall|i: int|
            0 <= i < run@.len() ==> (#[trigger] packets@[i]).direction()
                == edges@[run@[i].edge as int].symbol.direction(),
        forall|i: int|
            0 <= i < run@.len() ==> (#[trigger] packets@[i]).payload_size() == payload_of(
                edges@,
                run@[i],
            ).size(),
{
    let mut packets: Vec<B::Info> = Vec::new();
    let mut builder: B = header_builder;
    let mut i: usize = 0;
    while i < run.len()
        invariant
            i <= run.len(),
            packets@.len() == i,
            forall|j: int| 0 <= j < run@.len() ==> (#[trigger] run@[j]).edge < edges@.len(),
            builder == builder_at(edges@, header_builder, run@, i as int),
            forall|j: int|
                0 <= j < i ==> (#[trigger] packets@[j])@ == packet_at(
                    edges@,
                    header_builder,
                    run@,
                    j,
                ),
            forall|j: int| 0 <= j < i ==> (#[trigger] packets@[j]).ts() == run@[j].ts,
            forall|j: int|
                0 <= j < i ==> (#[trigger] packets@[j]).direction()
                    == edges@[run@[j].edge as int].symbol.direction(),
            forall|j: int|
                0 <= j < i ==> (#[trigger] packets@[j]).payload_size() == payload_of(
                    edges@,
                    run@[j],
                ).size(),
        decreases run.len() - i,
    {
        let step: Transition = run[i];
        let symbol: &E = &edges[step.edge].symbol;
        let payload: Payload = symbol.get_payload_type().realize(step.payload_draw);
        let (info, next) = builder.build(symbol, payload, step.ts);
        packets.push(info);
        builder = next;
        i = i + 1;
    }
    packets
}

} // verus!
