//! Laws of sampling and of import: what holds of every run, whatever the
//! automaton and whatever the draws, and of every model that is imported.

use crate::automaton::built_edge;
use crate::automaton::built_edges;
use crate::automaton::describes;
use crate::automaton::edge_describes;
use crate::automaton::edge_fault;
use crate::automaton::first_duplicate;
use crate::automaton::first_edge_fault;
use crate::automaton::first_state_fault;
use crate::automaton::spec_import;
use crate::automaton::state_fault;
use crate::automaton::AutomatonError;
use crate::automaton::AutomatonView;
use crate::graph::lemma_selects_exists;
use crate::graph::lemma_selects_unique;
use crate::graph::out_weight;
use crate::graph::reachable;
use crate::graph::selected;
use crate::graph::selects;
use crate::graph::Edge;
use crate::model::JsonAutomaton;
use crate::model::JsonEdge;
use crate::random::RandomSource;
use crate::random::SeededRng;
use crate::sampling::lemma_run_unique;
use crate::sampling::lemma_step_takes_edge;
use crate::sampling::run_in_order;
use crate::sampling::HeaderBuilder;
use crate::sampling::Transition;
use crate::stage2::generated;
use crate::stage2::GenerationError;
use crate::structs::EdgeType;
use crate::timing::spec_parse_timing;
use vstd::prelude::*;

verus! {

/// Whether two random sources give the same draws, one after the other.
pub open spec fn same_draws<R: RandomSource, S: RandomSource>(first: R, second: S) -> bool {
    forall|k: int| 0 <= k ==> #[trigger] first.output(k) == second.output(k)
}

/// Sources that give the same draws lead a run to the same place and make
/// it take the same step there.
pub proof fn lemma_same_draws_same_steps<E, R: RandomSource, S: RandomSource>(
    automaton: AutomatonView<E>,
    first: R,
    second: S,
    start_time: u64,
    i: int,
)
    requires
        same_draws(first, second),
        0 <= i,
    ensures
        automaton.standing(first, start_time, i) == automaton.standing(second, start_time, i),
        automaton.transition(first, start_time, i) == automaton.transition(second, start_time, i),
    decreases i,
{
    if i > 0 {
        lemma_same_draws_same_steps(automaton, first, second, start_time, i - 1);
        assert(first.output(3 * (i - 1)) == second.output(3 * (i - 1)));
        assert(first.output(3 * (i - 1) + 1) == second.output(3 * (i - 1) + 1));
        assert(first.output(3 * (i - 1) + 2) == second.output(3 * (i - 1) + 2));
    }
    assert(first.output(3 * i) == second.output(3 * i));
    assert(first.output(3 * i + 1) == second.output(3 * i + 1));
    assert(first.output(3 * i + 2) == second.output(3 * i + 2));
}

/// Sampling is a function of the draws: sources that give the same draws
/// select the same run from the same instant, and where one runs past the
/// step bound so does the other.
pub proof fn lemma_same_draws_same_run<E, R: RandomSource, S: RandomSource>(
    automaton: AutomatonView<E>,
    first: R,
    second: S,
    start_time: u64,
    run: Seq<Transition>,
)
    requires
        same_draws(first, second),
    ensures
        automaton.is_run(first, start_time, run) == automaton.is_run(second, start_time, run),
        automaton.overruns(first, start_time) == automaton.overruns(second, start_time),
{
    assert forall|i: int| 0 <= i implies (#[trigger] automaton.standing(first, start_time, i))
        == automaton.standing(second, start_time, i) && automaton.transition(
        first,
        start_time,
        i,
    ) == automaton.transition(second, start_time, i) by {
        lemma_same_draws_same_steps(automaton, first, second, start_time, i);
    }
    assert forall|i: int| 0 <= i implies (#[trigger] automaton.standing(second, start_time, i))
        == automaton.standing(first, start_time, i) by {
        lemma_same_draws_same_steps(automaton, first, second, start_time, i);
    }
    if automaton.is_run(first, start_time, run) {
        assert(automaton.standing(first, start_time, run.len() as int) == automaton.standing(
            second,
            start_time,
            run.len() as int,
        ));
        assert(automaton.is_run(second, start_time, run));
    }
    if automaton.is_run(second, start_time, run) {
        assert(automaton.standing(first, start_time, run.len() as int) == automaton.standing(
            second,
            start_time,
            run.len() as int,
        ));
        assert(automaton.is_run(first, start_time, run));
    }
}

/// Generating twice from the same library with the same random source gives
/// the same outcome: the same error, or packets that are the same one by
/// one, in the same order. The two leave the same random source behind.
pub proof fn lemma_generation_deterministic<E: EdgeType, B: HeaderBuilder<E>>(
    automata: Seq<AutomatonView<E>>,
    rng: SeededRng,
    start: u64,
    builder: B,
    first_after: SeededRng,
    first: Result<Seq<B::Info>, GenerationError>,
    second_after: SeededRng,
    second: Result<Seq<B::Info>, GenerationError>,
)
    requires
        generated(automata, rng, first_after, start, builder, first),
        generated(automata, rng, second_after, start, builder, second),
    ensures
        first_after == second_after,
        match (first, second) {
            (Ok(these), Ok(those)) => {
                &&& these.len() == those.len()
                &&& forall|i: int| 0 <= i < these.len() ==> (#[trigger] these[i])@ == those[i]@
            },
            (Err(this), Err(that)) => this == that,
            _ => false,
        },
{
    if automata.len() > 0 {
        let automaton = automata[0];
        let run = automaton.sampled_run(rng, start);
        if first is Ok || second is Ok {
            assert(automaton.is_dead_end(automaton.standing(rng, start, run.len() as int).state));
        }
    }
}

/// A run never goes back in time: the instant it has reached after more
/// steps is not before the instant it had reached after fewer, and none is
/// before the start.
pub proof fn lemma_time_goes_on<E, R: RandomSource>(
    automaton: AutomatonView<E>,
    rng: R,
    start_time: u64,
    i: int,
    j: int,
)
    requires
        0 <= i <= j,
    ensures
        start_time <= automaton.standing(rng, start_time, i).now,
        automaton.standing(rng, start_time, i).now <= automaton.standing(rng, start_time, j).now,
    decreases j,
{
    if j > 0 {
        if i < j {
            lemma_time_goes_on(automaton, rng, start_time, i, j - 1);
        } else {
            lemma_time_goes_on(automaton, rng, start_time, i - 1, j - 1);
        }
    }
}

/// The instants of a sampled run never go back, and none lies before the
/// start.
pub proof fn lemma_run_in_order<E, R: RandomSource>(
    automaton: AutomatonView<E>,
    rng: R,
    start_time: u64,
    run: Seq<Transition>,
)
    requires
        automaton.is_run(rng, start_time, run),
    ensures
        run_in_order(run, start_time),
{
    assert forall|i: int| 0 <= i < run.len() implies start_time <= (#[trigger] run[i]).ts by {
        lemma_time_goes_on(automaton, rng, start_time, i + 1, i + 1);
        assert(run[i] == automaton.transition(rng, start_time, i));
    }
    assert forall|i: int, j: int| 0 <= i <= j < run.len() implies (#[trigger] run[i]).ts <= (
    #[trigger] run[j]).ts by {
        lemma_time_goes_on(automaton, rng, start_time, i + 1, j + 1);
        assert(run[i] == automaton.transition(rng, start_time, i));
        assert(run[j] == automaton.transition(rng, start_time, j));
    }
}

/// Each edge gets the share of the targets that its weight asks for: the
/// edges that leave a state divide the targets below the state's outgoing
/// weight among them, edge `k` taking as many targets as its weight, and
/// every such target selects exactly one edge.
pub proof fn lemma_selection_by_weight<E>(edges: Seq<Edge<E>>, state: int, target: int)
    requires
        0 <= target < out_weight(edges, state, edges.len() as int),
    ensures
        selects(edges, state, target, selected(edges, state, target)),
        forall|k: int|
            selects(edges, state, target, k) <==> {
                &&& 0 <= k < edges.len()
                &&& edges[k].src == state
                &&& out_weight(edges, state, k) <= target < out_weight(edges, state, k)
                    + edges[k].weight
            },
        forall|k: int| selects(edges, state, target, k) ==> k == selected(edges, state, target),
{
    lemma_selects_exists(edges, state, target, edges.len() as int);
    let chosen = selected(edges, state, target);
    assert forall|k: int| selects(edges, state, target, k) implies k == chosen by {
        lemma_selects_unique(edges, state, target, k, chosen);
    }
}

/// Whether `rank` gives every state a rank such that each edge of positive
/// weight leads to a state of lower rank. An automaton with such ranks has
/// no cycle that a run can take.
pub open spec fn ranked<E>(automaton: AutomatonView<E>, rank: Seq<nat>) -> bool {
    &&& rank.len() == automaton.states.len()
    &&& forall|i: int|
        #![trigger automaton.edges[i]]
        0 <= i < automaton.edges.len() && automaton.edges[i].weight > 0
            ==> rank[automaton.edges[i].dst as int] < rank[automaton.edges[i].src as int]
}

/// While a run in a ranked automaton goes on, each step takes it to a state
/// of lower rank.
proof fn lemma_rank_falls<E: EdgeType, R: RandomSource>(
    automaton: AutomatonView<E>,
    rank: Seq<nat>,
    rng: R,
    start_time: u64,
    i: int,
)
    requires
        automaton.wf(),
        ranked(automaton, rank),
        0 <= i,
        forall|j: int|
            0 <= j < i ==> !automaton.is_dead_end(
                (#[trigger] automaton.standing(rng, start_time, j)).state,
            ),
    ensures
        0 <= automaton.standing(rng, start_time, i).state < automaton.states.len(),
        rank[automaton.standing(rng, start_time, i).state] + i <= rank[automaton.initial],
    decreases i,
{
    if i > 0 {
        lemma_rank_falls(automaton, rank, rng, start_time, i - 1);
        let before = automaton.standing(rng, start_time, i - 1);
        assert(0 <= automaton.total_weight(before.state) <= u32::MAX);
        lemma_step_takes_edge(automaton, rng, 3 * (i - 1), before.state, before.now);
    }
}

/// From step `i` on, a run in a ranked automaton reaches a dead end before
/// it has taken more steps than the rank of the initial state.
proof fn lemma_ranked_halts_from<E: EdgeType, R: RandomSource>(
    automaton: AutomatonView<E>,
    rank: Seq<nat>,
    rng: R,
    start_time: u64,
    i: int,
)
    requires
        automaton.wf(),
        ranked(automaton, rank),
        0 <= i,
        forall|j: int|
            0 <= j < i ==> !automaton.is_dead_end(
                (#[trigger] automaton.standing(rng, start_time, j)).state,
            ),
    ensures
        exists|n: int| 0 <= n <= rank[automaton.initial] && automaton.halts_at(rng, start_time, n),
    decreases rank[automaton.initial] - i,
{
    lemma_rank_falls(automaton, rank, rng, start_time, i);
    if automaton.is_dead_end(automaton.standing(rng, start_time, i).state) {
        assert(automaton.halts_at(rng, start_time, i));
    } else {
        lemma_rank_falls(automaton, rank, rng, start_time, i + 1);
        lemma_ranked_halts_from(automaton, rank, rng, start_time, i + 1);
    }
}

/// Sampling an automaton without cycles ends without error: where every
/// edge of positive weight leads to a state of lower rank, every run
/// reaches a dead end within as many steps as the rank of the initial
/// state, whatever the draws; so it does not run past a step bound that is
/// at least this rank.
pub proof fn lemma_ranked_automaton_halts<E: EdgeType, R: RandomSource>(
    automaton: AutomatonView<E>,
    rank: Seq<nat>,
    rng: R,
    start_time: u64,
)
    requires
        automaton.wf(),
        ranked(automaton, rank),
    ensures
        exists|n: int| 0 <= n <= rank[automaton.initial] && automaton.halts_at(rng, start_time, n),
        rank[automaton.initial] <= automaton.step_bound() ==> !automaton.overruns(
            rng,
            start_time,
        ),
{
    lemma_ranked_halts_from(automaton, rank, rng, start_time, 0);
    let n = choose|n: int|
        0 <= n <= rank[automaton.initial] && automaton.halts_at(rng, start_time, n);
    if rank[automaton.initial] <= automaton.step_bound() {
        assert(automaton.is_dead_end(automaton.standing(rng, start_time, n).state));
    }
}

/// A run that reaches a dead end within the step bound is the sampled run,
/// and sampling does not run past the bound: the run that ends after `n`
/// steps holds the first `n` steps, and there is no other.
pub proof fn lemma_halting_run<E, R: RandomSource>(
    automaton: AutomatonView<E>,
    rng: R,
    start_time: u64,
    n: int,
)
    requires
        0 <= n <= automaton.step_bound(),
        automaton.halts_at(rng, start_time, n),
    ensures
        !automaton.overruns(rng, start_time),
        automaton.is_run(rng, start_time, automaton.sampled_run(rng, start_time)),
        automaton.sampled_run(rng, start_time).len() == n,
{
    let run = Seq::new(n as nat, |i: int| automaton.transition(rng, start_time, i));
    assert(automaton.is_run(rng, start_time, run));
    assert(automaton.is_dead_end(automaton.standing(rng, start_time, n).state));
    lemma_run_unique(automaton, rng, start_time, run, automaton.sampled_run(rng, start_time));
}

/// Identifiers that are all different hold no duplicate.
proof fn lemma_no_duplicate_found(states: Seq<u32>, upto: int)
    requires
        states.no_duplicates(),
        0 <= upto <= states.len(),
    ensures
        first_duplicate(states, upto) is None,
    decreases upto,
{
    if upto > 0 {
        lemma_no_duplicate_found(states, upto - 1);
        let shorter = states.take(upto - 1);
        if shorter.contains(states[upto - 1]) {
            let j = choose|j: int| 0 <= j < shorter.len() && shorter[j] == states[upto - 1];
            assert(states[j] == states[upto - 1]);
        }
    }
}

/// Where the first edges hold no fault, none of them has one.
proof fn lemma_faultless_edges<E: EdgeType>(
    states: Seq<u32>,
    edges: Seq<JsonEdge>,
    upto: int,
    i: int,
)
    requires
        0 <= i < upto,
        first_edge_fault::<E>(states, edges, upto) is None,
    ensures
        edge_fault::<E>(states, edges[i], i) is None,
    decreases upto,
{
    if i < upto - 1 {
        lemma_faultless_edges::<E>(states, edges, upto - 1, i);
    }
}

/// Where none of the first edges has a fault, they hold none.
proof fn lemma_no_edge_fault_found<E: EdgeType>(states: Seq<u32>, edges: Seq<JsonEdge>, upto: int)
    requires
        forall|i: int| 0 <= i < upto ==> edge_fault::<E>(states, #[trigger] edges[i], i) is None,
    ensures
        first_edge_fault::<E>(states, edges, upto) is None,
    decreases upto,
{
    if upto > 0 {
        lemma_no_edge_fault_found::<E>(states, edges, upto - 1);
    }
}

/// Where none of the first states has a fault, they hold none.
proof fn lemma_no_state_fault_found<E>(automaton: AutomatonView<E>, upto: int)
    requires
        forall|s: int| 0 <= s < upto ==> (#[trigger] state_fault(automaton, s)) is None,
    ensures
        first_state_fault(automaton, upto) is None,
    decreases upto,
{
    if upto > 0 {
        lemma_no_state_fault_found(automaton, upto - 1);
    }
}

/// A definition that describes an automaton is faultless, and importing it
/// gives this automaton.
pub proof fn lemma_description_imports<E: EdgeType>(
    definition: JsonAutomaton,
    automaton: AutomatonView<E>,
)
    requires
        automaton.wf(),
        describes(definition, automaton),
    ensures
        spec_import::<E>(definition) == Ok::<AutomatonView<E>, AutomatonError>(automaton),
{
    let states = definition.states@;
    let edges = definition.edges@;
    lemma_no_duplicate_found(states, states.len() as int);
    assert(states[automaton.initial] == definition.initial_state);
    assert(states.index_of(definition.initial_state) == automaton.initial);
    assert forall|i: int| 0 <= i < edges.len() implies edge_fault::<E>(
        states,
        #[trigger] edges[i],
        i,
    ) is None && built_edge::<E>(states, edges[i]) == automaton.edges[i] by {
        let edge = automaton.edges[i];
        assert(edge_describes(states, definition.edges@[i], edge));
        assert(states[edge.src as int] == edges[i].src);
        assert(states[edge.dst as int] == edges[i].dst);
        assert(states.index_of(edges[i].src) == edge.src);
        assert(states.index_of(edges[i].dst) == edge.dst);
    }
    lemma_no_edge_fault_found::<E>(states, edges, edges.len() as int);
    assert(built_edges::<E>(states, edges) =~= automaton.edges);
    let built = AutomatonView {
        states,
        initial: states.index_of(definition.initial_state),
        edges: built_edges::<E>(states, edges),
        max_steps: definition.max_steps,
    };
    assert(built == automaton);
    assert forall|s: int| 0 <= s < states.len() implies (#[trigger] state_fault(automaton, s))
        is None by {
        assert(0 <= automaton.total_weight(s) <= u32::MAX);
        assert(automaton.degree(s) > 0 ==> automaton.total_weight(s) > 0);
        assert(reachable(automaton.edges, automaton.initial, s));
    }
    lemma_no_state_fault_found(automaton, states.len() as int);
}

/// A faultless definition describes the automaton that importing it gives.
pub proof fn lemma_import_describes<E: EdgeType>(
    definition: JsonAutomaton,
    automaton: AutomatonView<E>,
)
    requires
        spec_import::<E>(definition) == Ok::<AutomatonView<E>, AutomatonError>(automaton),
    ensures
        describes(definition, automaton),
{
    let states = definition.states@;
    let edges = definition.edges@;
    assert(states.len() == definition.states.len());
    assert(states.contains(definition.initial_state));
    assert forall|i: int|
        #![trigger definition.edges@[i]]
        0 <= i < automaton.edges.len() implies edge_describes(
        automaton.states,
        definition.edges@[i],
        automaton.edges[i],
    ) by {
        lemma_faultless_edges::<E>(states, edges, edges.len() as int, i);
        assert(automaton.edges[i] == built_edge::<E>(states, edges[i]));
        assert(states.contains(edges[i].src));
        assert(states.contains(edges[i].dst));
    }
}

/// Exporting an imported model and importing it again changes nothing: a
/// definition that describes the automaton of another definition has the
/// same protocol tag, states, initial state and step bound, its edges join the same
/// states with the same weights, timing models and symbols, in the same
/// order, and importing it gives the same automaton.
pub proof fn lemma_round_trip<E: EdgeType>(
    source: JsonAutomaton,
    automaton: AutomatonView<E>,
    exported: JsonAutomaton,
)
    requires
        spec_import::<E>(source) == Ok::<AutomatonView<E>, AutomatonError>(automaton),
        automaton.wf(),
        describes(exported, automaton),
    ensures
        spec_import::<E>(exported) == spec_import::<E>(source),
        exported.protocol == source.protocol,
        exported.states@ == source.states@,
        exported.initial_state == source.initial_state,
        exported.max_steps == source.max_steps,
        exported.edges@.len() == source.edges@.len(),
        forall|i: int|
            #![trigger exported.edges@[i]]
            0 <= i < exported.edges@.len() ==> {
                &&& exported.edges@[i].src == source.edges@[i].src
                &&& exported.edges@[i].dst == source.edges@[i].dst
                &&& exported.edges@[i].weight == source.edges@[i].weight
                &&& spec_parse_timing(exported.edges@[i].timing) == spec_parse_timing(
                    source.edges@[i].timing,
                )
                &&& E::spec_parse(exported.edges@[i].symbol) == E::spec_parse(
                    source.edges@[i].symbol,
                )
            },
{
    lemma_description_imports(exported, automaton);
    lemma_import_describes(source, automaton);
    assert forall|i: int|
        #![trigger exported.edges@[i]]
        0 <= i < exported.edges@.len() implies {
        &&& exported.edges@[i].src == source.edges@[i].src
        &&& exported.edges@[i].dst == source.edges@[i].dst
        &&& exported.edges@[i].weight == source.edges@[i].weight
        &&& spec_parse_timing(exported.edges@[i].timing) == spec_parse_timing(
            source.edges@[i].timing,
        )
        &&& E::spec_parse(exported.edges@[i].symbol) == E::spec_parse(source.edges@[i].symbol)
    } by {
        assert(edge_describes(automaton.states, exported.edges@[i], automaton.edges[i]));
        assert(edge_describes(automaton.states, source.edges@[i], automaton.edges[i]));
    }
}

} // verus!
