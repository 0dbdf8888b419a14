//! Timed automata: the model of one behaviour, and its construction from
//! a model definition.

use crate::graph::lemma_out_weight_nonnegative;
use crate::graph::mark_reachable;
use crate::graph::out_degree;
use crate::graph::out_weight;
use crate::graph::reachable;
use crate::graph::selected;
use crate::graph::selects;
use crate::graph::weigh_state;
use crate::graph::Edge;
use crate::model::JsonAutomaton;
use crate::model::JsonEdge;
use crate::model::SymbolError;
use crate::random::spec_scale;
use crate::random::RandomSource;
use crate::sampling::build_packets;
use crate::sampling::choose_among;
use crate::sampling::lemma_run_unique;
use crate::sampling::packet_at;
use crate::sampling::packets_in_order;
use crate::sampling::payload_of;
use crate::sampling::run_in_order;
use crate::sampling::walk_edges;
use crate::sampling::HeaderBuilder;
use crate::sampling::SampleError;
use crate::sampling::Transition;
use crate::structs::EdgeType;
use crate::structs::Protocol;
use crate::timing::describe_timing;
use crate::timing::parse_timing;
use crate::timing::spec_parse_timing;
use crate::timing::TimingModel;
use vstd::prelude::*;

verus! {

/// The number of packets a run may produce where the model sets no bound.
pub const DEFAULT_MAX_STEPS: u32 = 100_000;

/// The mathematical content of a timed automaton.
pub struct AutomatonView<E> {
    /// The identifiers of the states; a state's number is its place here.
    pub states: Seq<u32>,
    /// The number of the initial state.
    pub initial: int,
    pub edges: Seq<Edge<E>>,
    /// The bound on the packets of one run, where the model sets one.
    pub max_steps: Option<u32>,
}

impl<E> AutomatonView<E> {
    /// The weight of all edges that leave `state`.
    pub open spec fn total_weight(self, state: int) -> int {
        out_weight(self.edges, state, self.edges.len() as int)
    }

    /// The number of edges that leave `state`.
    pub open spec fn degree(self, state: int) -> int {
        out_degree(self.edges, state, self.edges.len() as int)
    }

    /// A run ends at a state that has no outgoing weight.
    pub open spec fn is_dead_end(self, state: int) -> bool {
        self.total_weight(state) == 0
    }

    /// The largest number of packets one run may produce.
    pub open spec fn step_bound(self) -> u32 {
        match self.max_steps {
            Some(bound) => bound,
            None => DEFAULT_MAX_STEPS,
        }
    }

    /// The edge that a draw selects at `state`: the draw is scaled to the
    /// state's outgoing weight and selects the edge on whose stretch it
    /// falls.
    pub open spec fn edge_for(self, state: int, draw: u32) -> int {
        selected(self.edges, state, spec_scale(draw, self.total_weight(state) as u64) as int)
    }
}

impl<E: EdgeType> AutomatonView<E> {
    /// What holds of every automaton: states and edges can be counted in a
    /// machine word, the initial state is a state, no two states share an
    /// identifier, every edge joins two states and has a sound symbol and
    /// a sound timing model, the weight that leaves a state fits in 32 bits
    /// and is positive where the state has an edge, and every state is
    /// reachable from the initial state.
    pub open spec fn wf(self) -> bool {
        &&& 0 <= self.initial < self.states.len() <= usize::MAX
        &&& self.edges.len() <= usize::MAX
        &&& self.states.no_duplicates()
        &&& forall|i: int|
            #![trigger self.edges[i]]
            0 <= i < self.edges.len() ==> {
                &&& self.edges[i].src < self.states.len()
                &&& self.edges[i].dst < self.states.len()
                &&& self.edges[i].timing.wf()
                &&& self.edges[i].symbol.wf()
            }
        &&& forall|s: int|
            0 <= s < self.states.len() ==> 0 <= #[trigger] self.total_weight(s) <= u32::MAX
        &&& forall|s: int|
            0 <= s < self.states.len() && #[trigger] self.degree(s) > 0 ==> self.total_weight(s)
                > 0
        &&& forall|s: int|
            0 <= s < self.states.len() ==> #[trigger] reachable(self.edges, self.initial, s)
    }
}

/// Why a model definition describes no automaton.
#[derive(Debug, Clone, Copy, PartialEq, Eq, Structural)]
pub enum AutomatonError {
    /// The definition is tagged with another protocol than the one whose
    /// symbols are asked for.
    ProtocolMismatch,
    /// Two states have the identifier `id`.
    DuplicateState { id: u32 },
    /// The initial state is not among the states.
    UnknownInitialState,
    /// Edge number `edge` leaves or enters a state that is not among the
    /// states.
    UnknownState { edge: usize },
    /// The timing description of edge number `edge` stands for no timing
    /// model.
    InvalidTiming { edge: usize },
    /// The symbol description of edge number `edge` was refused.
    InvalidSymbol { edge: usize, cause: SymbolError },
    /// The weights that leave state `id` do not sum to a 32-bit number.
    WeightOverflow { id: u32 },
    /// State `id` has edges, and all of them have weight zero.
    ZeroWeight { id: u32 },
    /// State `id` cannot be reached from the initial state.
    UnreachableState { id: u32 },
}

/// The first identifier, among the first `upto`, that an earlier state has
/// too.
pub open spec fn first_duplicate(states: Seq<u32>, upto: int) -> Option<u32>
    decreases upto,
{
    if upto <= 0 {
        None
    } else {
        match first_duplicate(states, upto - 1) {
            Some(id) => Some(id),
            None => if states.take(upto - 1).contains(states[upto - 1]) {
                Some(states[upto - 1])
            } else {
                None
            },
        }
    }
}

/// What is wrong with edge number `i` of a definition, if anything.
pub open spec fn edge_fault<E: EdgeType>(states: Seq<u32>, edge: JsonEdge, i: int) -> Option<
    AutomatonError,
> {
    if !states.contains(edge.src) || !states.contains(edge.dst) {
        Some(AutomatonError::UnknownState { edge: i as usize })
    } else if spec_parse_timing(edge.timing) is None {
        Some(AutomatonError::InvalidTiming { edge: i as usize })
    } else {
        match E::spec_parse(edge.symbol) {
            Err(cause) => Some(AutomatonError::InvalidSymbol { edge: i as usize, cause }),
            Ok(_) => None,
        }
    }
}

/// What is wrong with the first faulty edge among the first `upto`.
pub open spec fn first_edge_fault<E: EdgeType>(states: Seq<u32>, edges: Seq<JsonEdge>, upto: int)
    -> Option<AutomatonError>
    decreases upto,
{
    if upto <= 0 {
        None
    } else {
        match first_edge_fault::<E>(states, edges, upto - 1) {
            Some(fault) => Some(fault),
            None => edge_fault::<E>(states, edges[upto - 1], upto - 1),
        }
    }
}

/// The edge that a faultless edge description stands for.
pub open spec fn built_edge<E: EdgeType>(states: Seq<u32>, edge: JsonEdge) -> Edge<E> {
    Edge {
        src: states.index_of(edge.src) as usize,
        dst: states.index_of(edge.dst) as usize,
        symbol: E::spec_parse(edge.symbol)->Ok_0,
        weight: edge.weight,
        timing: spec_parse_timing(edge.timing)->0,
    }
}

/// The edges that faultless edge descriptions stand for, in their order.
pub open spec fn built_edges<E: EdgeType>(states: Seq<u32>, edges: Seq<JsonEdge>) -> Seq<Edge<E>> {
    Seq::new(edges.len(), |i: int| built_edge::<E>(states, edges[i]))
}

/// What is wrong with state number `s` of an automaton, if anything.
pub open spec fn state_fault<E>(automaton: AutomatonView<E>, s: int) -> Option<AutomatonError> {
    if automaton.total_weight(s) > u32::MAX {
        Some(AutomatonError::WeightOverflow { id: automaton.states[s] })
    } else if automaton.degree(s) > 0 && automaton.total_weight(s) == 0 {
        Some(AutomatonError::ZeroWeight { id: automaton.states[s] })
    } else if !reachable(automaton.edges, automaton.initial, s) {
        Some(AutomatonError::UnreachableState { id: automaton.states[s] })
    } else {
        None
    }
}

/// What is wrong with the first faulty state among the first `upto`.
pub open spec fn first_state_fault<E>(automaton: AutomatonView<E>, upto: int) -> Option<
    AutomatonError,
>
    decreases upto,
{
    if upto <= 0 {
        None
    } else {
        match first_state_fault(automaton, upto - 1) {
            Some(fault) => Some(fault),
            None => state_fault(automaton, upto - 1),
        }
    }
}

/// The automaton that a model definition describes, or what is wrong with
/// the definition. The protocol tag is checked first, then the states, then
/// the initial state, then the edges in their order, then the states once
/// more, in their order, for the weights that leave them and for a way to
/// reach them; the first fault found is the one reported.
pub open spec fn spec_import<E: EdgeType>(definition: JsonAutomaton) -> Result<
    AutomatonView<E>,
    AutomatonError,
> {
    let states = definition.states@;
    let edges = definition.edges@;
    if definition.protocol != E::spec_protocol() {
        Err(AutomatonError::ProtocolMismatch)
    } else if let Some(id) = first_duplicate(states, states.len() as int) {
        Err(AutomatonError::DuplicateState { id })
    } else if !states.contains(definition.initial_state) {
        Err(AutomatonError::UnknownInitialState)
    } else if let Some(fault) = first_edge_fault::<E>(states, edges, edges.len() as int) {
        Err(fault)
    } else {
        let automaton = AutomatonView {
            states,
            initial: states.index_of(definition.initial_state),
            edges: built_edges::<E>(states, edges),
            max_steps: definition.max_steps,
        };
        match first_state_fault(automaton, states.len() as int) {
            Some(fault) => Err(fault),
            None => Ok(automaton),
        }
    }
}

/// Whether an edge description describes an edge between the given states:
/// it names the identifiers of the edge's states, has its weight, and its
/// timing and symbol descriptions stand for the edge's timing model and
/// symbol.
pub open spec fn edge_describes<E: EdgeType>(states: Seq<u32>, description: JsonEdge, edge: Edge<E>)
    -> bool {
    &&& description.src == states[edge.src as int]
    &&& description.dst == states[edge.dst as int]
    &&& description.weight == edge.weight
    &&& spec_parse_timing(description.timing) == Some(edge.timing)
    &&& E::spec_parse(description.symbol) == Ok::<E, SymbolError>(edge.symbol)
}

/// Whether a definition describes an automaton: it is tagged with the
/// protocol of the automaton's symbols, it has the automaton's states,
/// initial state and step bound, and its edge descriptions describe the
/// automaton's edges, one by one and in order.
pub open spec fn describes<E: EdgeType>(definition: JsonAutomaton, automaton: AutomatonView<E>)
    -> bool {
    &&& definition.protocol == E::spec_protocol()
    &&& definition.states@ == automaton.states
    &&& definition.initial_state == automaton.states[automaton.initial]
    &&& definition.max_steps == automaton.max_steps
    &&& definition.edges@.len() == automaton.edges.len()
    &&& forall|i: int|
        #![trigger definition.edges@[i]]
        0 <= i < automaton.edges.len() ==> edge_describes(
            automaton.states,
            definition.edges@[i],
            automaton.edges[i],
        )
}

/// A fault found among the first edges is the fault of the whole list.
proof fn lemma_edge_fault_stays<E: EdgeType>(
    states: Seq<u32>,
    edges: Seq<JsonEdge>,
    found: int,
    upto: int,
)
    requires
        found <= upto,
        first_edge_fault::<E>(states, edges, found) is Some,
    ensures
        first_edge_fault::<E>(states, edges, upto) == first_edge_fault::<E>(states, edges, found),
    decreases upto - found,
{
    if found < upto {
        lemma_edge_fault_stays::<E>(states, edges, found, upto - 1);
    }
}

/// A fault found among the first states is the fault of the whole list.
proof fn lemma_state_fault_stays<E>(automaton: AutomatonView<E>, found: int, upto: int)
    requires
        found <= upto,
        first_state_fault(automaton, found) is Some,
    ensures
        first_state_fault(automaton, upto) == first_state_fault(automaton, found),
    decreases upto - found,
{
    if found < upto {
        lemma_state_fault_stays(automaton, found, upto - 1);
    }
}

/// A duplicate found among the first states is the duplicate of the whole
/// list.
proof fn lemma_duplicate_stays(states: Seq<u32>, found: int, upto: int)
    requires
        found <= upto,
        first_duplicate(states, found) is Some,
    ensures
        first_duplicate(states, upto) == first_duplicate(states, found),
    decreases upto - found,
{
    if found < upto {
        lemma_duplicate_stays(states, found, upto - 1);
    }
}

/// The place of `id` among the states: the first state that has this
/// identifier.
pub fn find_state(states: &Vec<u32>, id: u32) -> (place: Option<usize>)
    ensures
        match place {
            Some(i) => {
                &&& i < states@.len()
                &&& states@[i as int] == id
                &&& !states@.take(i as int).contains(id)
            },
            None => !states@.contains(id),
        },
{
    let mut i: usize = 0;
    while i < states.len()
        invariant
            i <= states.len(),
            forall|j: int| 0 <= j < i ==> states@[j] != id,
        decreases states.len() - i,
    {
        if states[i] == id {
            return Some(i);
        }
        i = i + 1;
    }
    None
}

/// Looks for an identifier that two states share.
fn find_duplicate(states: &Vec<u32>) -> (duplicate: Option<u32>)
    ensures
        duplicate == first_duplicate(states@, states@.len() as int),
        duplicate is None ==> states@.no_duplicates(),
{
    let mut i: usize = 0;
    while i < states.len()
        invariant
            i <= states.len(),
            first_duplicate(states@, i as int) is None,
            states@.take(i as int).no_duplicates(),
        decreases states.len() - i,
    {
        match find_state(states, states[i]) {
            Some(first) => {
                if first < i {
                    proof {
                        assert(states@.take(i as int)[first as int] == states@[i as int]);
                        assert(first_duplicate(states@, i + 1) == Some(states@[i as int]));
                        lemma_duplicate_stays(states@, i + 1, states@.len() as int);
                    }
                    return Some(states[i]);
                }
            },
            None => {},
        }
        proof {
            let shorter = states@.take(i as int);
            let longer = states@.take(i + 1);
            assert(!shorter.contains(states@[i as int])) by {
                if shorter.contains(states@[i as int]) {
                    let j = choose|j: int| 0 <= j < shorter.len() && shorter[j] == states@[i as int];
                    assert(states@.take(j + 1)[j] == states@[j]);
                }
            }
            assert forall|a: int, b: int| 0 <= a < longer.len() && 0 <= b < longer.len() && a
                != b implies longer[a] != longer[b] by {
                if a < i && b < i {
                    assert(shorter[a] != shorter[b]);
                } else if a < i {
                    assert(shorter[a] == longer[a]);
                } else {
                    assert(shorter[b] == longer[b]);
                }
            }
        }
        i = i + 1;
    }
    proof {
        assert(states@.take(states@.len() as int) =~= states@);
    }
    None
}

/// Checks the edge descriptions in their order and turns them into edges.
fn build_edges<E: EdgeType>(states: &Vec<u32>, descriptions: Vec<JsonEdge>) -> (outcome: Result<
    Vec<Edge<E>>,
    AutomatonError,
>)
    requires
        states@.no_duplicates(),
    ensures
        match outcome {
            Ok(edges) => {
                &&& first_edge_fault::<E>(states@, descriptions@, descriptions@.len() as int)
                    is None
                &&& edges@ == built_edges::<E>(states@, descriptions@)
                &&& forall|i: int|
                    #![trigger edges@[i]]
                    0 <= i < edges@.len() ==> {
                        &&& edges@[i].src < states@.len()
                        &&& edges@[i].dst < states@.len()
                        &&& edges@[i].timing.wf()
                        &&& edges@[i].symbol.wf()
                    }
            },
            Err(fault) => first_edge_fault::<E>(
                states@,
                descriptions@,
                descriptions@.len() as int,
            ) == Some(fault),
        },
{
    let ghost all: Seq<JsonEdge> = descriptions@;
    let mut edges: Vec<Edge<E>> = Vec::new();
    for description in iter: descriptions
        invariant
            iter.seq() == all,
            states@.no_duplicates(),
            edges@.len() == iter.index(),
            first_edge_fault::<E>(states@, all, iter.index() as int) is None,
            forall|i: int|
                0 <= i < edges@.len() ==> #[trigger] edges@[i] == built_edge::<E>(states@, all[i]),
            forall|i: int|
                #![trigger edges@[i]]
                0 <= i < edges@.len() ==> {
                    &&& edges@[i].src < states@.len()
                    &&& edges@[i].dst < states@.len()
                    &&& edges@[i].timing.wf()
                    &&& edges@[i].symbol.wf()
                },
    {
        let ghost i: int = edges@.len() as int;
        assert(description == all[i]);
        let src: usize = match find_state(states, description.src) {
            Some(place) => place,
            None => {
                proof {
                    lemma_edge_fault_stays::<E>(states@, all, i + 1, all.len() as int);
                }
                return Err(AutomatonError::UnknownState { edge: edges.len() });
            },
        };
        let dst: usize = match find_state(states, description.dst) {
            Some(place) => place,
            None => {
                proof {
                    lemma_edge_fault_stays::<E>(states@, all, i + 1, all.len() as int);
                }
                return Err(AutomatonError::UnknownState { edge: edges.len() });
            },
        };
        let timing: TimingModel = match parse_timing(&description.timing) {
            Some(model) => model,
            None => {
                proof {
                    lemma_edge_fault_stays::<E>(states@, all, i + 1, all.len() as int);
                }
                return Err(AutomatonError::InvalidTiming { edge: edges.len() });
            },
        };
        let weight: u32 = description.weight;
        let symbol: E = match E::parse(description.symbol) {
            Ok(symbol) => symbol,
            Err(cause) => {
                proof {
                    lemma_edge_fault_stays::<E>(states@, all, i + 1, all.len() as int);
                }
                return Err(AutomatonError::InvalidSymbol { edge: edges.len(), cause });
            },
        };
        proof {
            assert(states@.index_of(all[i].src) == src);
            assert(states@.index_of(all[i].dst) == dst);
        }
        edges.push(Edge { src, dst, symbol, weight, timing });
    }
    proof {
        assert(edges@ =~= built_edges::<E>(states@, all));
    }
    Ok(edges)
}

/// Checks the states in their order and gives, for each, the weight that
/// leaves it.
fn check_states<E>(
    states: &Vec<u32>,
    initial: usize,
    edges: &Vec<Edge<E>>,
    max_steps: Option<u32>,
) -> (outcome: Result<Vec<u32>, AutomatonError>)
    requires
        initial < states@.len(),
        forall|i: int|
            #![trigger edges@[i]]
            0 <= i < edges@.len() ==> edges@[i].src < states@.len() && edges@[i].dst
                < states@.len(),
    ensures
        ({
            let automaton = AutomatonView {
                states: states@,
                initial: initial as int,
                edges: edges@,
                max_steps,
            };
            match outcome {
                Ok(totals) => {
                    &&& first_state_fault(automaton, states@.len() as int) is None
                    &&& totals@.len() == states@.len()
                    &&& forall|s: int|
                        0 <= s < states@.len() ==> #[trigger] totals@[s] == automaton.total_weight(
                            s,
                        )
                    &&& forall|s: int|
                        0 <= s < states@.len() && #[trigger] automaton.degree(s) > 0
                            ==> automaton.total_weight(s) > 0
                    &&& forall|s: int|
                        0 <= s < states@.len() ==> #[trigger] reachable(
                            edges@,
                            initial as int,
                            s,
                        )
                },
                Err(fault) => first_state_fault(automaton, states@.len() as int) == Some(fault),
            }
        }),
{
    let ghost automaton = AutomatonView {
        states: states@,
        initial: initial as int,
        edges: edges@,
        max_steps,
    };
    let marks: Vec<bool> = mark_reachable(edges, states.len(), initial);
    let mut totals: Vec<u32> = Vec::new();
    let mut s: usize = 0;
    while s < states.len()
        invariant
            s <= states@.len(),
            marks@.len() == states@.len(),
            automaton == (AutomatonView {
                states: states@,
                initial: initial as int,
                edges: edges@,
                max_steps,
            }),
            forall|t: int|
                0 <= t < states@.len() ==> #[trigger] marks@[t] == reachable(
                    edges@,
                    initial as int,
                    t,
                ),
            first_state_fault(automaton, s as int) is None,
            totals@.len() == s,
            forall|t: int| 0 <= t < s ==> #[trigger] totals@[t] == automaton.total_weight(t),
            forall|t: int|
                0 <= t < s && #[trigger] automaton.degree(t) > 0 ==> automaton.total_weight(t) > 0,
            forall|t: int| 0 <= t < s ==> #[trigger] marks@[t],
        decreases states.len() - s,
    {
        let (weight, leaves) = weigh_state(edges, s);
        let total: u32 = match weight {
            Some(total) => total,
            None => {
                proof {
                    lemma_state_fault_stays(automaton, s + 1, states@.len() as int);
                }
                return Err(AutomatonError::WeightOverflow { id: states[s] });
            },
        };
        proof {
            lemma_out_weight_nonnegative(edges@, s as int, edges@.len() as int);
        }
        if leaves && total == 0 {
            proof {
                lemma_state_fault_stays(automaton, s + 1, states@.len() as int);
            }
            return Err(AutomatonError::ZeroWeight { id: states[s] });
        }
        if !marks[s] {
            proof {
                lemma_state_fault_stays(automaton, s + 1, states@.len() as int);
            }
            return Err(AutomatonError::UnreachableState { id: states[s] });
        }
        totals.push(total);
        s = s + 1;
    }
    proof {
        assert forall|t: int| 0 <= t < states@.len() implies #[trigger] reachable(
            edges@,
            initial as int,
            t,
        ) by {
            assert(marks@[t]);
        }
    }
    Ok(totals)
}

/// A timed automaton over edge symbols of type `E`. It is built from a
/// model definition and never changes afterwards.
#[derive(Debug)]
pub struct TimedAutomaton<E: EdgeType> {
    states: Vec<u32>,
    initial: usize,
    edges: Vec<Edge<E>>,
    /// For each state the weight of the edges that leave it.
    totals: Vec<u32>,
    max_steps: Option<u32>,
}

impl<E: EdgeType> View for TimedAutomaton<E> {
    type V = AutomatonView<E>;

    closed spec fn view(&self) -> AutomatonView<E> {
        AutomatonView {
            states: self.states@,
            initial: self.initial as int,
            edges: self.edges@,
            max_steps: self.max_steps,
        }
    }
}

impl<E: EdgeType> TimedAutomaton<E> {
    #[verifier::type_invariant]
    spec fn inv(&self) -> bool {
        &&& self@.wf()
        &&& self.totals@.len() == self.states@.len()
        &&& forall|s: int|
            0 <= s < self.totals@.len() ==> #[trigger] self.totals@[s] == self@.total_weight(s)
    }

    /// Builds the automaton that a model definition describes. The
    /// definition's symbols are read as symbols of `E`, whose protocol the
    /// definition must be tagged with.
    ///
    /// A definition with a fault gives no automaton: the first fault, in the
    /// order that `spec_import` lays down, is the error.
    pub fn import_timed_automaton(definition: JsonAutomaton) -> (outcome: Result<
        TimedAutomaton<E>,
        AutomatonError,
    >)
        ensures
            match outcome {
                Ok(automaton) => {
                    &&& spec_import::<E>(definition) == Ok::<AutomatonView<E>, AutomatonError>(
                        automaton@,
                    )
                    &&& automaton@.wf()
                },
                Err(fault) => spec_import::<E>(definition) == Err::<
                    AutomatonView<E>,
                    AutomatonError,
                >(fault),
            },
    {
        let JsonAutomaton { protocol, states, initial_state, edges, max_steps } = definition;
        if protocol != E::protocol() {
            return Err(AutomatonError::ProtocolMismatch);
        }
        if let Some(id) = find_duplicate(&states) {
            return Err(AutomatonError::DuplicateState { id });
        }
        let initial: usize = match find_state(&states, initial_state) {
            Some(place) => place,
            None => {
                return Err(AutomatonError::UnknownInitialState);
            },
        };
        let edges: Vec<Edge<E>> = match build_edges::<E>(&states, edges) {
            Ok(edges) => edges,
            Err(fault) => {
                return Err(fault);
            },
        };
        let totals: Vec<u32> = match check_states(&states, initial, &edges, max_steps) {
            Ok(totals) => totals,
            Err(fault) => {
                return Err(fault);
            },
        };
        proof {
            let built = AutomatonView {
                states: states@,
                initial: initial as int,
                edges: edges@,
                max_steps,
            };
            assert(definition.states@.index_of(definition.initial_state) == initial);
            assert forall|s: int| 0 <= s < built.states.len() implies 0
                <= #[trigger] built.total_weight(s) <= u32::MAX by {
                assert(totals@[s] == built.total_weight(s));
            }
            assert(states@.len() == states.len() && edges@.len() == edges.len());
            assert(built.wf());
        }
        Ok(TimedAutomaton { states, initial, edges, totals, max_steps })
    }

    /// Turns the automaton back into a model definition, which describes
    /// it: importing the definition gives the automaton again.
    pub fn into_definition(self) -> (definition: JsonAutomaton)
        ensures
            describes(definition, self@),
            self@.wf(),
    {
        proof {
            use_type_invariant(&self);
        }
        let ghost automaton: AutomatonView<E> = self@;
        let TimedAutomaton { states, initial, edges, totals: _, max_steps } = self;
        let initial_state: u32 = states[initial];
        let ghost all: Seq<Edge<E>> = edges@;
        let mut descriptions: Vec<JsonEdge> = Vec::new();
        for edge in iter: edges
            invariant
                iter.seq() == all,
                all == automaton.edges,
                states@ == automaton.states,
                automaton.wf(),
                descriptions@.len() == iter.index(),
                forall|i: int|
                    #![trigger descriptions@[i]]
                    0 <= i < descriptions@.len() ==> edge_describes(
                        states@,
                        descriptions@[i],
                        all[i],
                    ),
        {
            assert(edge == all[descriptions@.len() as int]);
            let Edge { src, dst, symbol, weight, timing } = edge;
            let description = JsonEdge {
                src: states[src],
                dst: states[dst],
                symbol: symbol.describe(),
                weight,
                timing: describe_timing(timing),
            };
            descriptions.push(description);
        }
        JsonAutomaton {
            protocol: E::protocol(),
            states,
            initial_state,
            edges: descriptions,
            max_steps,
        }
    }

    /// The identifiers of the states.
    pub fn states(&self) -> (states: &Vec<u32>)
        ensures
            states@ == self@.states,
            self@.wf(),
    {
        proof {
            use_type_invariant(self);
        }
        &self.states
    }

    /// The number of the initial state.
    pub fn initial(&self) -> (initial: usize)
        ensures
            initial == self@.initial,
            self@.wf(),
    {
        proof {
            use_type_invariant(self);
        }
        self.initial
    }

    /// The edges, in the order of the model definition.
    pub fn edges(&self) -> (edges: &Vec<Edge<E>>)
        ensures
            edges@ == self@.edges,
            self@.wf(),
    {
        proof {
            use_type_invariant(self);
        }
        &self.edges
    }

    /// The bound on the packets of one run, where the model sets one. A
    /// model that sets none is sampled under `DEFAULT_MAX_STEPS`.
    pub fn max_steps(&self) -> (bound: Option<u32>)
        ensures
            bound == self@.max_steps,
    {
        self.max_steps
    }

    /// The largest number of packets one run may produce.
    pub fn step_bound(&self) -> (bound: u32)
        ensures
            bound == self@.step_bound(),
    {
        match self.max_steps {
            Some(bound) => bound,
            None => DEFAULT_MAX_STEPS,
        }
    }

    /// The weight of the edges that leave `state`; zero for a number that
    /// is no state.
    pub fn total_weight(&self, state: usize) -> (weight: u32)
        ensures
            state < self@.states.len() ==> weight == self@.total_weight(state as int),
            state >= self@.states.len() ==> weight == 0,
    {
        proof {
            use_type_invariant(self);
        }
        if state < self.totals.len() {
            self.totals[state]
        } else {
            0
        }
    }

    /// The edge that a draw selects at `state`, or `None` at a dead end or
    /// for a number that is no state.
    pub fn choose_edge(&self, state: usize, draw: u32) -> (choice: Option<usize>)
        ensures
            match choice {
                Some(k) => {
                    &&& state < self@.states.len()
                    &&& !self@.is_dead_end(state as int)
                    &&& k == self@.edge_for(state as int, draw)
                    &&& selects(
                        self@.edges,
                        state as int,
                        spec_scale(draw, self@.total_weight(state as int) as u64) as int,
                        k as int,
                    )
                },
                None => state >= self@.states.len() || self@.is_dead_end(state as int),
            },
    {
        proof {
            use_type_invariant(self);
        }
        choose_among(&self.edges, &self.totals, state, draw)
    }

    /// Samples one run: from the initial state at `start_time`, take steps
    /// until a dead end is reached. Each step takes three draws from `rng`:
    /// for the delay, for the edge and for the payload.
    ///
    /// The run ends without error at the first dead end. If the automaton's
    /// step bound is used up before, the run is given up.
    pub fn walk<R: RandomSource>(&self, rng: &mut R, start_time: u64) -> (outcome: Result<
        Vec<Transition>,
        SampleError,
    >)
        ensures
            self@.wf(),
            match outcome {
                Ok(run) => {
                    &&& self@.is_run(*old(rng), start_time, run@)
                    &&& run@.len() <= self@.step_bound()
                    &&& run_in_order(run@, start_time)
                    &&& forall|i: int|
                        0 <= i < run@.len() ==> (#[trigger] run@[i]).edge < self@.edges.len()
                    &&& *final(rng) == old(rng).skip(3 * run@.len() as int)
                },
                Err(SampleError::StepLimitExceeded) => {
                    &&& self@.overruns(*old(rng), start_time)
                    &&& *final(rng) == old(rng).skip(3 * self@.step_bound() as int)
                },
            },
    {
        proof {
            use_type_invariant(self);
        }
        walk_edges(
            &self.edges,
            &self.totals,
            self.initial,
            self.step_bound(),
            rng,
            start_time,
            Ghost(self@),
        )
    }

    /// Samples one run and describes its packets: the run is the one that
    /// `walk` takes, and `header_builder` turns its steps into packet
    /// descriptions, in order, each with the payload that its step's draw
    /// selects from the edge's payload model.
    pub fn sample<R: RandomSource, B: HeaderBuilder<E>>(
        &self,
        rng: &mut R,
        start_time: u64,
        header_builder: B,
    ) -> (outcome: Result<Vec<B::Info>, SampleError>)
        ensures
            self@.wf(),
            match outcome {
                Ok(packets) => {
                    let run = self@.sampled_run(*old(rng), start_time);
                    &&& self@.is_run(*old(rng), start_time, run)
                    &&& run.len() <= self@.step_bound()
                    &&& packets@.len() == run.len()
                    &&& forall|i: int|
                        0 <= i < run.len() ==> (#[trigger] packets@[i])@ == packet_at(
                            self@.edges,
                            header_builder,
                            run,
                            i,
                        )
                    &&& forall|i: int|
                        0 <= i < run.len() ==> (#[trigger] packets@[i]).ts() == run[i].ts
                    &&& forall|i: int|
                        0 <= i < run.len() ==> (#[trigger] packets@[i]).direction()
                            == self@.edges[run[i].edge as int].symbol.direction()
                    &&& forall|i: int|
                        0 <= i < run.len() ==> (#[trigger] packets@[i]).payload_size()
                            == payload_of(self@.edges, run[i]).size()
                    &&& packets_in_order(packets@, start_time)
                    &&& *final(rng) == old(rng).skip(3 * run.len() as int)
                },
                Err(SampleError::StepLimitExceeded) => {
                    &&& self@.overruns(*old(rng), start_time)
                    &&& *final(rng) == old(rng).skip(3 * self@.step_bound() as int)
                },
            },
    {
        proof {
            use_type_invariant(self);
        }
        let run: Vec<Transition> = match self.walk(rng, start_time) {
            Ok(run) => run,
            Err(error) => {
                return Err(error);
            },
        };
        proof {
            let named = self@.sampled_run(*old(rng), start_time);
            lemma_run_unique(self@, *old(rng), start_time, run@, named);
        }
        Ok(build_packets(&self.edges, &run, header_builder))
    }
}

} // verus!
