use generation::sampling::SampleError;
use generation::automaton::TimedAutomaton;
use generation::sampling::Transition;
use generation::model::JsonAutomaton;
use generation::model::JsonEdge;
use generation::model::JsonPayload;
use generation::model::JsonProtocol;
use generation::model::JsonSymbol;
use generation::model::JsonTiming;
use generation::random::RandomSource;
use generation::random::ScriptedSource;
use generation::random::SeededRng;
use generation::structs::PacketDirection;
use generation::structs::Payload;
use generation::tcp::TCPEdgeTuple;
use generation::tcp::TcpSession;

fn empty_payload() -> JsonPayload {
    JsonPayload { kind: "empty".to_string(), texts: vec![], blobs: vec![], lengths: vec![] }
}

fn tcp_symbol(direction: &str, flags: &[&str], payload: JsonPayload) -> JsonSymbol {
    JsonSymbol {
        direction: direction.to_string(),
        flags: flags.iter().map(|f| f.to_string()).collect(),
        icmp_type: None,
        icmp_code: None,
        payload,
    }
}

fn fixed(delay: u64) -> JsonTiming {
    JsonTiming { family: "fixed".to_string(), params: vec![delay] }
}

fn uniform(min: u64, max: u64) -> JsonTiming {
    JsonTiming { family: "uniform".to_string(), params: vec![min, max] }
}

fn handshake() -> JsonAutomaton {
    JsonAutomaton {
        protocol: JsonProtocol::TCP,
        states: vec![10, 20, 30],
        initial_state: 10,
        edges: vec![
            JsonEdge {
                src: 10,
                dst: 20,
                symbol: tcp_symbol("forward", &["SYN"], empty_payload()),
                weight: 1,
                timing: fixed(1_000),
            },
            JsonEdge {
                src: 20,
                dst: 30,
                symbol: tcp_symbol("backward", &["ACK"], empty_payload()),
                weight: 1,
                timing: uniform(100, 199),
            },
        ],
        max_steps: Some(16),
    }
}

#[test]
fn walk_of_two_edges_follows_the_script() {
    let automaton = TimedAutomaton::<TCPEdgeTuple>::import_timed_automaton(handshake()).unwrap();
    // Per step: delay draw, edge draw, payload draw.
    let mut source = ScriptedSource::new(vec![7, 8, 9, 0x8000_0000, 11, 12]);
    let run = automaton.walk(&mut source, 5_000).unwrap();
    assert_eq!(
        run,
        vec![
            Transition { edge: 0, ts: 6_000, payload_draw: 9 },
            Transition { edge: 1, ts: 6_150, payload_draw: 12 },
        ]
    );
    assert_eq!(source.cursor, 6);
}

#[test]
fn sample_describes_syn_then_ack() {
    let automaton = TimedAutomaton::<TCPEdgeTuple>::import_timed_automaton(handshake()).unwrap();
    let mut rng = SeededRng::new(42);
    let packets = automaton.sample(&mut rng, 1_000_000, TcpSession::new(0, 0)).unwrap();
    assert_eq!(packets.len(), 2);
    assert!(packets[0].flags.syn && !packets[0].flags.ack);
    assert!(packets[1].flags.ack && !packets[1].flags.syn);
    assert_eq!(packets[0].direction, PacketDirection::Forward);
    assert_eq!(packets[1].direction, PacketDirection::Backward);
    assert_eq!(packets[0].ts, 1_001_000);
    assert!(packets[1].ts >= packets[0].ts + 100 && packets[1].ts <= packets[0].ts + 199);
    assert_eq!(packets[0].payload, Payload::Empty);
    assert_eq!(packets[0].seq, 0);
    assert_eq!(packets[1].seq, 0);
    assert_eq!(packets[1].ack, 1);
    assert_eq!(rng.position, 6);
}

#[test]
fn same_seed_gives_the_same_packets() {
    let automaton = TimedAutomaton::<TCPEdgeTuple>::import_timed_automaton(handshake()).unwrap();
    let mut first = SeededRng::new(7);
    let mut second = SeededRng::new(7);
    let a = automaton.sample(&mut first, 0, TcpSession::new(0, 0)).unwrap();
    let b = automaton.sample(&mut second, 0, TcpSession::new(0, 0)).unwrap();
    assert_eq!(a, b);
    assert_eq!(first, second);
}

#[test]
fn seeded_source_draws_differ_from_their_index() {
    let mut rng = SeededRng::new(1);
    let a = rng.next_u32();
    let b = rng.next_u32();
    let c = rng.next_u32();
    // A generator that handed back its seed or its position would repeat.
    assert!(!(a == b && b == c));
    let mut again = SeededRng { seed: 1, position: 1 };
    assert_eq!(again.next_u32(), b);
}

#[test]
fn a_cycle_runs_into_the_step_bound() {
    let definition = JsonAutomaton {
        protocol: JsonProtocol::TCP,
        states: vec![0],
        initial_state: 0,
        edges: vec![JsonEdge {
            src: 0,
            dst: 0,
            symbol: tcp_symbol("forward", &["ACK"], empty_payload()),
            weight: 3,
            timing: fixed(1),
        }],
        max_steps: Some(4),
    };
    let automaton = TimedAutomaton::<TCPEdgeTuple>::import_timed_automaton(definition).unwrap();
    let mut rng = SeededRng::new(3);
    assert_eq!(automaton.walk(&mut rng, 0), Err(SampleError::StepLimitExceeded));
    assert_eq!(rng.position, 12);
}
