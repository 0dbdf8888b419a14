use generation::automaton::find_state;
use generation::automaton::AutomatonError;
use generation::automaton::TimedAutomaton;
use generation::automaton::DEFAULT_MAX_STEPS;
use generation::icmp::ICMPEdgeTuple;
use generation::model::JsonAutomaton;
use generation::model::JsonEdge;
use generation::model::JsonPayload;
use generation::model::JsonProtocol;
use generation::model::JsonSymbol;
use generation::model::JsonTiming;
use generation::model::SymbolError;
use generation::structs::PacketDirection;
use generation::structs::PayloadType;
use generation::tcp::TCPEdgeTuple;
use generation::timing::TimingModel;
use generation::udp::UDPEdgeTuple;

fn empty_payload() -> JsonPayload {
    JsonPayload { kind: "empty".to_string(), texts: vec![], blobs: vec![], lengths: vec![] }
}

fn tcp_symbol(direction: &str, flags: &[&str]) -> JsonSymbol {
    JsonSymbol {
        direction: direction.to_string(),
        flags: flags.iter().map(|f| f.to_string()).collect(),
        icmp_type: None,
        icmp_code: None,
        payload: empty_payload(),
    }
}

fn fixed(delay: u64) -> JsonTiming {
    JsonTiming { family: "fixed".to_string(), params: vec![delay] }
}

fn edge(src: u32, dst: u32, weight: u32) -> JsonEdge {
    JsonEdge { src, dst, symbol: tcp_symbol("forward", &["ACK"]), weight, timing: fixed(10) }
}

fn model(states: &[u32], initial_state: u32, edges: Vec<JsonEdge>) -> JsonAutomaton {
    JsonAutomaton {
        protocol: JsonProtocol::TCP,
        states: states.to_vec(),
        initial_state,
        edges,
        max_steps: Some(100),
    }
}

fn import(definition: JsonAutomaton) -> Result<TimedAutomaton<TCPEdgeTuple>, AutomatonError> {
    TimedAutomaton::<TCPEdgeTuple>::import_timed_automaton(definition)
}

#[test]
fn find_state_gives_the_first_place() {
    let states = vec![5, 9, 5, 2];
    assert_eq!(find_state(&states, 5), Some(0));
    assert_eq!(find_state(&states, 9), Some(1));
    assert_eq!(find_state(&states, 2), Some(3));
    assert_eq!(find_state(&states, 7), None);
    assert_eq!(find_state(&vec![], 0), None);
}

#[test]
fn a_sound_model_is_imported_as_it_is() {
    let mut definition = model(&[7, 3, 5], 3, vec![edge(3, 7, 2), edge(3, 5, 6), edge(7, 5, 1)]);
    definition.edges[1].timing =
        JsonTiming { family: "uniform".to_string(), params: vec![1, 9] };
    let automaton = import(definition).unwrap();
    assert_eq!(automaton.states(), &vec![7, 3, 5]);
    assert_eq!(automaton.initial(), 1);
    assert_eq!(automaton.max_steps(), Some(100));
    assert_eq!(automaton.step_bound(), 100);
    let edges = automaton.edges();
    assert_eq!(edges.len(), 3);
    assert_eq!((edges[0].src, edges[0].dst, edges[0].weight), (1, 0, 2));
    assert_eq!((edges[1].src, edges[1].dst, edges[1].weight), (1, 2, 6));
    assert_eq!((edges[2].src, edges[2].dst, edges[2].weight), (0, 2, 1));
    assert_eq!(edges[0].timing, TimingModel::Fixed { delay: 10 });
    assert_eq!(edges[1].timing, TimingModel::Uniform { min: 1, max: 9 });
    assert_eq!(edges[0].symbol.direction, PacketDirection::Forward);
    assert!(edges[0].symbol.flags.ack);
    assert!(matches!(edges[0].symbol.payload_type, PayloadType::Empty));
    assert_eq!(automaton.total_weight(1), 8);
    assert_eq!(automaton.total_weight(0), 1);
    assert_eq!(automaton.total_weight(2), 0);
    assert_eq!(automaton.total_weight(3), 0);
}

#[test]
fn a_model_without_step_bound_gets_the_default() {
    let mut definition = model(&[0, 1], 0, vec![edge(0, 1, 1)]);
    definition.max_steps = None;
    let automaton = import(definition).unwrap();
    assert_eq!(automaton.max_steps(), None);
    assert_eq!(automaton.step_bound(), DEFAULT_MAX_STEPS);
    assert_eq!(DEFAULT_MAX_STEPS, 100_000);
}

#[test]
fn a_single_state_without_edges_is_a_model() {
    let automaton = import(model(&[42], 42, vec![])).unwrap();
    assert_eq!(automaton.states(), &vec![42]);
    assert_eq!(automaton.initial(), 0);
    assert!(automaton.edges().is_empty());
}

#[test]
fn duplicate_state_is_refused() {
    assert_eq!(
        import(model(&[1, 2, 1], 1, vec![])).err(),
        Some(AutomatonError::DuplicateState { id: 1 })
    );
    // The first identifier that repeats an earlier one is reported.
    assert_eq!(
        import(model(&[1, 2, 3, 3, 2], 1, vec![])).err(),
        Some(AutomatonError::DuplicateState { id: 3 })
    );
}

#[test]
fn unknown_initial_state_is_refused() {
    assert_eq!(
        import(model(&[1, 2], 3, vec![edge(1, 2, 1)])).err(),
        Some(AutomatonError::UnknownInitialState)
    );
    assert_eq!(import(model(&[], 0, vec![])).err(), Some(AutomatonError::UnknownInitialState));
}

#[test]
fn edge_to_unknown_state_is_refused() {
    assert_eq!(
        import(model(&[1, 2], 1, vec![edge(1, 2, 1), edge(2, 9, 1)])).err(),
        Some(AutomatonError::UnknownState { edge: 1 })
    );
    assert_eq!(
        import(model(&[1, 2], 1, vec![edge(9, 2, 1)])).err(),
        Some(AutomatonError::UnknownState { edge: 0 })
    );
}

#[test]
fn faulty_timing_is_refused() {
    let mut definition = model(&[1, 2], 1, vec![edge(1, 2, 1), edge(1, 2, 1)]);
    definition.edges[1].timing = JsonTiming { family: "uniform".to_string(), params: vec![5, 1] };
    assert_eq!(import(definition).err(), Some(AutomatonError::InvalidTiming { edge: 1 }));
}

#[test]
fn faulty_symbol_is_refused_with_its_cause() {
    let mut definition = model(&[1, 2], 1, vec![edge(1, 2, 1), edge(1, 2, 1), edge(1, 2, 1)]);
    definition.edges[2].symbol = tcp_symbol("forward", &["SYN", "FIN"]);
    assert_eq!(
        import(definition).err(),
        Some(AutomatonError::InvalidSymbol {
            edge: 2,
            cause: SymbolError::InvalidFlagCombination
        })
    );
}

#[test]
fn a_model_of_another_protocol_is_refused() {
    let as_udp = TimedAutomaton::<UDPEdgeTuple>::import_timed_automaton(model(
        &[1, 2],
        1,
        vec![edge(1, 2, 1)],
    ));
    assert_eq!(as_udp.err(), Some(AutomatonError::ProtocolMismatch));
    let as_icmp = TimedAutomaton::<ICMPEdgeTuple>::import_timed_automaton(model(
        &[1, 1],
        9,
        vec![edge(1, 2, 1)],
    ));
    assert_eq!(as_icmp.err(), Some(AutomatonError::ProtocolMismatch));
    let mut tagged_icmp = model(&[1, 2], 1, vec![edge(1, 2, 1)]);
    tagged_icmp.protocol = JsonProtocol::ICMP;
    assert_eq!(import(tagged_icmp).err(), Some(AutomatonError::ProtocolMismatch));
}

#[test]
fn symbols_are_read_for_the_protocol_of_the_tag() {
    // A TCP symbol is no UDP symbol and no ICMP symbol.
    let mut tagged_udp = model(&[1, 2], 1, vec![edge(1, 2, 1)]);
    tagged_udp.protocol = JsonProtocol::UDP;
    assert_eq!(
        TimedAutomaton::<UDPEdgeTuple>::import_timed_automaton(tagged_udp).err(),
        Some(AutomatonError::InvalidSymbol { edge: 0, cause: SymbolError::UnexpectedField })
    );
    let mut tagged_icmp = model(&[1, 2], 1, vec![edge(1, 2, 1)]);
    tagged_icmp.protocol = JsonProtocol::ICMP;
    assert_eq!(
        TimedAutomaton::<ICMPEdgeTuple>::import_timed_automaton(tagged_icmp).err(),
        Some(AutomatonError::InvalidSymbol { edge: 0, cause: SymbolError::UnexpectedField })
    );
}

#[test]
fn weights_that_overflow_are_refused() {
    let definition =
        model(&[1, 2], 1, vec![edge(1, 2, u32::MAX), edge(1, 2, 0), edge(1, 2, 1)]);
    assert_eq!(import(definition).err(), Some(AutomatonError::WeightOverflow { id: 1 }));
    let at_limit = model(&[1, 2], 1, vec![edge(1, 2, u32::MAX - 1), edge(1, 2, 1)]);
    assert_eq!(import(at_limit).unwrap().total_weight(0), u32::MAX);
}

#[test]
fn edges_of_weight_zero_alone_are_refused() {
    let definition = model(&[1, 2], 1, vec![edge(1, 2, 1), edge(2, 1, 0), edge(2, 2, 0)]);
    assert_eq!(import(definition).err(), Some(AutomatonError::ZeroWeight { id: 2 }));
    let with_one_positive = model(&[1, 2], 1, vec![edge(1, 2, 0), edge(1, 2, 4)]);
    assert!(import(with_one_positive).is_ok());
}

#[test]
fn unreachable_state_is_refused() {
    let definition = model(&[1, 2, 3, 4], 1, vec![edge(1, 2, 1), edge(3, 4, 1), edge(3, 1, 1)]);
    assert_eq!(import(definition).err(), Some(AutomatonError::UnreachableState { id: 3 }));
    let lonely = model(&[1, 2], 2, vec![]);
    assert_eq!(import(lonely).err(), Some(AutomatonError::UnreachableState { id: 1 }));
}

#[test]
fn states_reached_over_many_edges_count_as_reachable() {
    // The edges are listed against the direction of the path, so that one
    // pass over them marks one state only.
    let definition = model(
        &[0, 1, 2, 3, 4],
        0,
        vec![edge(3, 4, 1), edge(2, 3, 1), edge(1, 2, 1), edge(0, 1, 1), edge(4, 0, 1)],
    );
    assert!(import(definition).is_ok());
}

#[test]
fn the_first_fault_in_order_is_reported() {
    // States before initial state before edges before weights before reach.
    let mut everything = model(&[1, 1], 9, vec![edge(1, 8, 0)]);
    everything.edges[0].timing = JsonTiming { family: "none".to_string(), params: vec![] };
    assert_eq!(import(everything).err(), Some(AutomatonError::DuplicateState { id: 1 }));
    let no_initial = model(&[1, 2], 9, vec![edge(1, 8, 0)]);
    assert_eq!(import(no_initial).err(), Some(AutomatonError::UnknownInitialState));
    // Within an edge: states, then timing, then symbol.
    let mut bad_edge = model(&[1, 2], 1, vec![edge(1, 8, 0)]);
    bad_edge.edges[0].timing = JsonTiming { family: "none".to_string(), params: vec![] };
    bad_edge.edges[0].symbol = tcp_symbol("nowhere", &[]);
    assert_eq!(import(bad_edge).err(), Some(AutomatonError::UnknownState { edge: 0 }));
    let mut bad_timing = model(&[1, 2], 1, vec![edge(1, 2, 0)]);
    bad_timing.edges[0].timing = JsonTiming { family: "none".to_string(), params: vec![] };
    bad_timing.edges[0].symbol = tcp_symbol("nowhere", &[]);
    assert_eq!(import(bad_timing).err(), Some(AutomatonError::InvalidTiming { edge: 0 }));
    // An earlier edge's symbol before a later edge's states.
    let mut two = model(&[1, 2], 1, vec![edge(1, 2, 1), edge(1, 8, 1)]);
    two.edges[0].symbol = tcp_symbol("nowhere", &[]);
    assert_eq!(
        import(two).err(),
        Some(AutomatonError::InvalidSymbol { edge: 0, cause: SymbolError::UnknownDirection })
    );
    // An earlier state's reach before a later state's weights.
    let states = model(&[1, 2, 3], 1, vec![edge(3, 3, 0)]);
    assert_eq!(import(states).err(), Some(AutomatonError::UnreachableState { id: 2 }));
    let weights = model(&[1, 2, 3], 1, vec![edge(1, 2, 0), edge(3, 3, 0)]);
    assert_eq!(import(weights).err(), Some(AutomatonError::ZeroWeight { id: 1 }));
}

#[test]
fn exported_model_describes_the_automaton() {
    let mut definition = model(&[7, 3, 5], 3, vec![edge(3, 7, 2), edge(3, 5, 6), edge(7, 5, 1)]);
    definition.edges[0].symbol = tcp_symbol("backward", &["SYN", "ACK"]);
    definition.edges[1].timing =
        JsonTiming { family: "uniform".to_string(), params: vec![1, 9] };
    definition.edges[2].symbol.payload = JsonPayload {
        kind: "random".to_string(),
        texts: vec![],
        blobs: vec![],
        lengths: vec![5, 6],
    };
    let exported = import(definition).unwrap().into_definition();
    assert_eq!(exported.protocol, JsonProtocol::TCP);
    assert_eq!(exported.states, vec![7, 3, 5]);
    assert_eq!(exported.initial_state, 3);
    assert_eq!(exported.max_steps, Some(100));
    assert_eq!(exported.edges.len(), 3);
    let ends: Vec<(u32, u32, u32)> =
        exported.edges.iter().map(|e| (e.src, e.dst, e.weight)).collect();
    assert_eq!(ends, vec![(3, 7, 2), (3, 5, 6), (7, 5, 1)]);
    assert_eq!(exported.edges[0].symbol.direction, "backward");
    assert_eq!(exported.edges[0].symbol.flags, vec!["SYN", "ACK"]);
    assert_eq!(exported.edges[0].timing.family, "fixed");
    assert_eq!(exported.edges[0].timing.params, vec![10]);
    assert_eq!(exported.edges[1].timing.family, "uniform");
    assert_eq!(exported.edges[1].timing.params, vec![1, 9]);
    assert_eq!(exported.edges[2].symbol.payload.kind, "random");
    assert_eq!(exported.edges[2].symbol.payload.lengths, vec![5, 6]);
}

#[test]
fn exporting_and_importing_again_changes_nothing() {
    let definition = model(&[7, 3, 5], 3, vec![edge(3, 7, 2), edge(3, 5, 6), edge(7, 5, 1)]);
    let first = import(definition).unwrap();
    let expected_states = first.states().clone();
    let expected_initial = first.initial();
    let expected_totals: Vec<u32> = (0..3).map(|s| first.total_weight(s)).collect();
    let second = import(first.into_definition()).unwrap();
    assert_eq!(second.states(), &expected_states);
    assert_eq!(second.initial(), expected_initial);
    let totals: Vec<u32> = (0..3).map(|s| second.total_weight(s)).collect();
    assert_eq!(totals, expected_totals);
    let third = import(second.into_definition()).unwrap();
    assert_eq!(third.edges().len(), 3);
    assert_eq!(third.max_steps(), Some(100));
}
