use generation::sampling::SampleError;
use generation::automaton::TimedAutomaton;
use generation::sampling::Transition;
use generation::icmp::ICMPEdgeTuple;
use generation::icmp::IcmpExchange;
use generation::model::JsonAutomaton;
use generation::model::JsonEdge;
use generation::model::JsonPayload;
use generation::model::JsonProtocol;
use generation::model::JsonSymbol;
use generation::model::JsonTiming;
use generation::random::RandomSource;
use generation::random::ScriptedSource;
use generation::random::SeededRng;
use generation::structs::NoiseType;
use generation::structs::PacketDirection;
use generation::structs::Payload;
use generation::structs::Protocol;
use generation::tcp::create_tcp_header;
use generation::tcp::TCPEdgeTuple;
use generation::tcp::TCPPacketInfo;
use generation::tcp::TcpFlags;
use generation::tcp::TcpSession;
use generation::timing::TimingModel;
use generation::udp::UDPEdgeTuple;
use generation::udp::UdpExchange;
use rand::RngCore;
use rand::SeedableRng;
use rand_pcg::Pcg32;

fn payload(kind: &str) -> JsonPayload {
    JsonPayload { kind: kind.to_string(), texts: vec![], blobs: vec![], lengths: vec![] }
}

fn random_payload(lengths: &[usize]) -> JsonPayload {
    JsonPayload { lengths: lengths.to_vec(), ..payload("random") }
}

fn symbol(direction: &str, flags: &[&str], payload: JsonPayload) -> JsonSymbol {
    JsonSymbol {
        direction: direction.to_string(),
        flags: flags.iter().map(|f| f.to_string()).collect(),
        icmp_type: None,
        icmp_code: None,
        payload,
    }
}

fn icmp_symbol(direction: &str, icmp_type: u8, payload: JsonPayload) -> JsonSymbol {
    JsonSymbol {
        direction: direction.to_string(),
        flags: vec![],
        icmp_type: Some(icmp_type),
        icmp_code: Some(0),
        payload,
    }
}

fn fixed(delay: u64) -> JsonTiming {
    JsonTiming { family: "fixed".to_string(), params: vec![delay] }
}

fn uniform(min: u64, max: u64) -> JsonTiming {
    JsonTiming { family: "uniform".to_string(), params: vec![min, max] }
}

fn tcp_edge(src: u32, dst: u32, flags: &[&str], weight: u32, timing: JsonTiming) -> JsonEdge {
    JsonEdge { src, dst, symbol: symbol("forward", flags, payload("empty")), weight, timing }
}

fn tcp_model(states: &[u32], edges: Vec<JsonEdge>, max_steps: Option<u32>) -> JsonAutomaton {
    JsonAutomaton {
        protocol: JsonProtocol::TCP,
        states: states.to_vec(),
        initial_state: states[0],
        edges,
        max_steps,
    }
}

fn tcp(definition: JsonAutomaton) -> TimedAutomaton<TCPEdgeTuple> {
    TimedAutomaton::<TCPEdgeTuple>::import_timed_automaton(definition).unwrap()
}

fn fork() -> TimedAutomaton<TCPEdgeTuple> {
    // State 0 forks with weights 1 and 3; an edge of another state lies
    // between the two in the list.
    tcp(tcp_model(
        &[0, 1, 2, 3],
        vec![
            tcp_edge(0, 1, &["SYN"], 1, fixed(1)),
            tcp_edge(1, 3, &["ACK"], 5, fixed(1)),
            tcp_edge(0, 2, &["RST"], 3, fixed(1)),
            tcp_edge(2, 3, &["ACK"], 5, fixed(1)),
        ],
        Some(10),
    ))
}

#[test]
fn edge_is_chosen_by_weight_share() {
    let automaton = fork();
    // Four targets: target 0 is the first edge's, targets 1 to 3 the other's.
    assert_eq!(automaton.choose_edge(0, 0), Some(0));
    assert_eq!(automaton.choose_edge(0, 0x3fff_ffff), Some(0));
    assert_eq!(automaton.choose_edge(0, 0x4000_0000), Some(2));
    assert_eq!(automaton.choose_edge(0, 0x8000_0000), Some(2));
    assert_eq!(automaton.choose_edge(0, u32::MAX), Some(2));
    assert_eq!(automaton.choose_edge(1, 0), Some(1));
    assert_eq!(automaton.choose_edge(1, u32::MAX), Some(1));
    assert_eq!(automaton.choose_edge(2, 12345), Some(3));
}

#[test]
fn no_edge_is_chosen_at_a_dead_end() {
    let automaton = fork();
    assert_eq!(automaton.choose_edge(3, 0), None);
    assert_eq!(automaton.choose_edge(3, u32::MAX), None);
    assert_eq!(automaton.choose_edge(4, 0), None);
    assert_eq!(automaton.choose_edge(usize::MAX, 7), None);
}

#[test]
fn edge_of_weight_zero_is_never_chosen() {
    let automaton = tcp(tcp_model(
        &[0, 1],
        vec![
            tcp_edge(0, 1, &["SYN"], 0, fixed(1)),
            tcp_edge(0, 1, &["ACK"], 2, fixed(1)),
            tcp_edge(0, 1, &["RST"], 0, fixed(1)),
        ],
        Some(10),
    ));
    for draw in [0, 1, 0x7fff_ffff, 0x8000_0000, u32::MAX] {
        assert_eq!(automaton.choose_edge(0, draw), Some(1));
    }
}

#[test]
fn edge_frequencies_follow_the_weights() {
    let automaton = fork();
    let mut rng = SeededRng::new(12345);
    let samples = 40_000;
    let mut first = 0;
    for _ in 0..samples {
        match automaton.choose_edge(0, rng.next_u32()) {
            Some(0) => first += 1,
            Some(2) => {},
            other => panic!("unexpected choice {:?}", other),
        }
    }
    let frequency = first as f64 / samples as f64;
    assert!((frequency - 0.25).abs() < 0.02, "frequency {}", frequency);
}

#[test]
fn run_frequencies_follow_the_weights() {
    let automaton = fork();
    let mut rng = SeededRng::new(99);
    let samples = 20_000;
    let mut through_first = 0;
    for _ in 0..samples {
        let run = automaton.walk(&mut rng, 0).unwrap();
        assert_eq!(run.len(), 2);
        if run[0].edge == 0 {
            assert_eq!(run[1].edge, 1);
            through_first += 1;
        } else {
            assert_eq!((run[0].edge, run[1].edge), (2, 3));
        }
    }
    let frequency = through_first as f64 / samples as f64;
    assert!((frequency - 0.25).abs() < 0.02, "frequency {}", frequency);
    assert_eq!(rng.position, 6 * samples as u64);
}

#[test]
fn walk_takes_three_draws_for_each_step() {
    let automaton = tcp(tcp_model(
        &[0, 1, 2],
        vec![
            tcp_edge(0, 1, &["SYN"], 1, uniform(10, 19)),
            tcp_edge(1, 2, &["ACK"], 1, uniform(1_000, 1_999)),
        ],
        Some(5),
    ));
    let mut source = ScriptedSource::new(vec![0, 5, 77, u32::MAX, 6, 88, 1, 2, 3]);
    let run = automaton.walk(&mut source, 100).unwrap();
    assert_eq!(
        run,
        vec![
            Transition { edge: 0, ts: 110, payload_draw: 77 },
            Transition { edge: 1, ts: 110 + 1_999, payload_draw: 88 },
        ]
    );
    assert_eq!(source.cursor, 6);
    assert_eq!(source.next_u32(), 1);
}

#[test]
fn walk_from_a_dead_end_is_empty_and_draws_nothing() {
    let automaton = tcp(tcp_model(&[4], vec![], Some(0)));
    let mut rng = SeededRng::new(1);
    assert_eq!(automaton.walk(&mut rng, 50), Ok(vec![]));
    assert_eq!(rng.position, 0);
    let packets = automaton.sample(&mut rng, 50, TcpSession::new(0, 0)).unwrap();
    assert!(packets.is_empty());
    assert_eq!(rng.position, 0);
}

#[test]
fn walk_may_use_up_the_step_bound_exactly() {
    let chain = |max_steps| {
        tcp(tcp_model(
            &[0, 1, 2, 3],
            vec![
                tcp_edge(0, 1, &["SYN"], 1, fixed(1)),
                tcp_edge(1, 2, &["ACK"], 1, fixed(1)),
                tcp_edge(2, 3, &["FIN"], 1, fixed(1)),
            ],
            Some(max_steps),
        ))
    };
    let mut rng = SeededRng::new(1);
    assert_eq!(chain(3).walk(&mut rng, 0).unwrap().len(), 3);
    assert_eq!(rng.position, 9);
    let mut rng = SeededRng::new(1);
    assert_eq!(chain(4).walk(&mut rng, 0).unwrap().len(), 3);
    let mut rng = SeededRng::new(1);
    assert_eq!(chain(2).walk(&mut rng, 0), Err(SampleError::StepLimitExceeded));
    assert_eq!(rng.position, 6);
    let mut rng = SeededRng::new(1);
    assert_eq!(chain(0).walk(&mut rng, 0), Err(SampleError::StepLimitExceeded));
    assert_eq!(rng.position, 0);
    let mut rng = SeededRng::new(1);
    assert_eq!(
        chain(2).sample(&mut rng, 0, TcpSession::new(0, 0)).err(),
        Some(SampleError::StepLimitExceeded)
    );
    assert_eq!(rng.position, 6);
}

#[test]
fn a_loop_that_the_draws_leave_ends_without_error() {
    // State 0 loops with weight 1 and leaves with weight 1.
    let automaton = tcp(tcp_model(
        &[0, 1],
        vec![tcp_edge(0, 0, &["ACK"], 1, fixed(2)), tcp_edge(0, 1, &["FIN"], 1, fixed(3))],
        Some(4),
    ));
    let mut stay_twice = ScriptedSource::new(vec![0, 0, 0, 0, 0, 0, 0, u32::MAX, 0]);
    let run = automaton.walk(&mut stay_twice, 0).unwrap();
    let edges: Vec<usize> = run.iter().map(|t| t.edge).collect();
    assert_eq!(edges, vec![0, 0, 1]);
    let instants: Vec<u64> = run.iter().map(|t| t.ts).collect();
    assert_eq!(instants, vec![2, 4, 7]);
    // A script of zeros never leaves the loop.
    let mut stay = ScriptedSource::new(vec![]);
    assert_eq!(automaton.walk(&mut stay, 0), Err(SampleError::StepLimitExceeded));
}

#[test]
fn instants_never_go_back() {
    let automaton = tcp(tcp_model(
        &[0, 1],
        vec![
            tcp_edge(0, 0, &["ACK"], 9, uniform(0, 1_000_000)),
            tcp_edge(0, 1, &["FIN"], 1, fixed(0)),
        ],
        Some(10_000),
    ));
    for seed in 0..50 {
        let mut rng = SeededRng::new(seed);
        if let Ok(packets) = automaton.sample(&mut rng, 1_000, TcpSession::new(0, 0)) {
            let mut last = 1_000;
            for packet in &packets {
                assert!(packet.get_ts() >= last);
                last = packet.get_ts();
            }
            assert_eq!(rng.position, 3 * packets.len() as u64);
        }
    }
}

#[test]
fn instants_stop_at_the_last_instant() {
    let automaton = tcp(tcp_model(
        &[0, 1, 2],
        vec![
            tcp_edge(0, 1, &["SYN"], 1, fixed(10)),
            tcp_edge(1, 2, &["ACK"], 1, fixed(10)),
        ],
        Some(5),
    ));
    let mut rng = SeededRng::new(0);
    let run = automaton.walk(&mut rng, u64::MAX - 15).unwrap();
    assert_eq!(run[0].ts, u64::MAX - 5);
    assert_eq!(run[1].ts, u64::MAX);
}

#[test]
fn two_state_handshake_gives_syn_then_ack() {
    let definition = JsonAutomaton {
        protocol: JsonProtocol::TCP,
        states: vec![1, 2, 3],
        initial_state: 1,
        edges: vec![
            JsonEdge {
                src: 1,
                dst: 2,
                symbol: symbol("forward", &["SYN"], payload("empty")),
                weight: 1,
                timing: uniform(1_000, 2_000),
            },
            JsonEdge {
                src: 2,
                dst: 3,
                symbol: symbol("backward", &["ACK"], payload("empty")),
                weight: 1,
                timing: uniform(500, 600),
            },
        ],
        max_steps: None,
    };
    let automaton = tcp(definition);
    let seed = 0xC0FFEE;
    let t0 = 1_700_000_000_000_000_000;
    // The delays that the seed's stream gives: draws 0 and 3.
    let mut reference = Pcg32::seed_from_u64(seed);
    let draws: Vec<u32> = (0..6).map(|_| reference.next_u32()).collect();
    let d1 = TimingModel::Uniform { min: 1_000, max: 2_000 }.delay(draws[0]);
    let d2 = TimingModel::Uniform { min: 500, max: 600 }.delay(draws[3]);
    assert!((1_000..=2_000).contains(&d1) && (500..=600).contains(&d2));
    for _ in 0..3 {
        let mut rng = SeededRng::new(seed);
        let packets = automaton.sample(&mut rng, t0, TcpSession::new(0, 0)).unwrap();
        let syn = TcpFlags {
            syn: true,
            ack: false,
            fin: false,
            rst: false,
            psh: false,
            urg: false,
        };
        let ack = TcpFlags { syn: false, ack: true, ..syn };
        assert_eq!(
            packets,
            vec![
                TCPPacketInfo {
                    noise: NoiseType::Clean,
                    direction: PacketDirection::Forward,
                    ts: t0 + d1,
                    flags: syn,
                    seq: 0,
                    ack: 0,
                    payload: Payload::Empty,
                },
                TCPPacketInfo {
                    noise: NoiseType::Clean,
                    direction: PacketDirection::Backward,
                    ts: t0 + d1 + d2,
                    flags: ack,
                    seq: 0,
                    ack: 1,
                    payload: Payload::Empty,
                },
            ]
        );
    }
}

#[test]
fn tcp_sequence_numbers_follow_the_payload() {
    let definition = JsonAutomaton {
        protocol: JsonProtocol::TCP,
        states: vec![0, 1, 2, 3, 4, 5],
        initial_state: 0,
        edges: vec![
            JsonEdge {
                src: 0,
                dst: 1,
                symbol: symbol("forward", &["SYN"], payload("empty")),
                weight: 1,
                timing: fixed(1),
            },
            JsonEdge {
                src: 1,
                dst: 2,
                symbol: symbol("backward", &["SYN", "ACK"], payload("empty")),
                weight: 1,
                timing: fixed(1),
            },
            JsonEdge {
                src: 2,
                dst: 3,
                symbol: symbol("forward", &["ACK", "PSH"], random_payload(&[100])),
                weight: 1,
                timing: fixed(1),
            },
            JsonEdge {
                src: 3,
                dst: 4,
                symbol: symbol("backward", &["ACK"], random_payload(&[40])),
                weight: 1,
                timing: fixed(1),
            },
            JsonEdge {
                src: 4,
                dst: 5,
                symbol: symbol("forward", &["FIN", "ACK"], payload("empty")),
                weight: 1,
                timing: fixed(1),
            },
        ],
        max_steps: Some(10),
    };
    let automaton = tcp(definition);
    let mut rng = SeededRng::new(8);
    let packets = automaton.sample(&mut rng, 0, TcpSession::new(1_000, 5_000)).unwrap();
    let numbers: Vec<(u32, u32)> = packets.iter().map(|p| (p.seq, p.ack)).collect();
    assert_eq!(
        numbers,
        vec![(1_000, 0), (5_000, 1_001), (1_001, 5_001), (5_001, 1_101), (1_101, 5_041)]
    );
    let sizes: Vec<usize> = packets.iter().map(|p| p.get_payload_size()).collect();
    assert_eq!(sizes, vec![0, 0, 100, 40, 0]);
    assert_eq!(packets[2].payload, Payload::Random(100));
    assert!(packets.iter().all(|p| p.get_noise_type() == NoiseType::Clean));
    assert_eq!(packets[3].get_direction(), PacketDirection::Backward);
    assert_eq!(packets[4].get_ts(), 5);
}

#[test]
fn tcp_sequence_numbers_wrap() {
    let flags = TcpFlags { syn: false, ack: true, fin: true, rst: false, psh: false, urg: false };
    let symbol = TCPEdgeTuple {
        flags,
        direction: PacketDirection::Backward,
        payload_type: generation::structs::PayloadType::Empty,
    };
    let session = TcpSession::new(7, u32::MAX - 1);
    let (info, after) = create_tcp_header(session, &symbol, Payload::Random(10), 99);
    assert_eq!(info.seq, u32::MAX - 1);
    assert_eq!(info.ack, 7);
    assert_eq!(info.ts, 99);
    // 10 payload bytes and one for FIN, counted modulo 2^32.
    assert_eq!(after, TcpSession { client_next: 7, server_next: 9 });
    let (_, after) = create_tcp_header(session, &symbol, Payload::Random(usize::MAX), 0);
    let expected = ((u32::MAX as u128 - 1 + usize::MAX as u128 + 1) % (1u128 << 32)) as u32;
    assert_eq!(after.server_next, expected);
}

#[test]
fn udp_datagrams_are_counted_by_side() {
    let edge = |src, dst, direction: &str| JsonEdge {
        src,
        dst,
        symbol: symbol(direction, &[], random_payload(&[8])),
        weight: 1,
        timing: fixed(5),
    };
    let definition = JsonAutomaton {
        protocol: JsonProtocol::UDP,
        states: vec![0, 1, 2, 3],
        initial_state: 0,
        edges: vec![edge(0, 1, "forward"), edge(1, 2, "backward"), edge(2, 3, "forward")],
        max_steps: Some(10),
    };
    let automaton = TimedAutomaton::<UDPEdgeTuple>::import_timed_automaton(definition).unwrap();
    let mut rng = SeededRng::new(4);
    let packets = automaton.sample(&mut rng, 0, UdpExchange::new()).unwrap();
    let seen: Vec<(PacketDirection, u32, u64)> =
        packets.iter().map(|p| (p.direction, p.index, p.ts)).collect();
    assert_eq!(
        seen,
        vec![
            (PacketDirection::Forward, 0, 5),
            (PacketDirection::Backward, 0, 10),
            (PacketDirection::Forward, 1, 15),
        ]
    );
    assert!(packets.iter().all(|p| p.payload == Payload::Random(8)));
    assert!(packets.iter().all(|p| p.get_payload_size() == 8));
}

#[test]
fn icmp_replies_carry_the_sequence_of_their_request() {
    let edge = |src, dst, direction: &str, icmp_type| JsonEdge {
        src,
        dst,
        symbol: icmp_symbol(direction, icmp_type, payload("empty")),
        weight: 1,
        timing: fixed(1),
    };
    let definition = JsonAutomaton {
        protocol: JsonProtocol::ICMP,
        states: vec![0, 1, 2, 3, 4, 5],
        initial_state: 0,
        edges: vec![
            edge(0, 1, "forward", 8),
            edge(1, 2, "backward", 0),
            edge(2, 3, "forward", 8),
            edge(3, 4, "backward", 3),
            edge(4, 5, "backward", 0),
        ],
        max_steps: Some(10),
    };
    let automaton = TimedAutomaton::<ICMPEdgeTuple>::import_timed_automaton(definition).unwrap();
    let mut rng = SeededRng::new(4);
    let packets = automaton.sample(&mut rng, 0, IcmpExchange::new()).unwrap();
    let seen: Vec<(u8, u16)> = packets.iter().map(|p| (p.icmp_type, p.sequence)).collect();
    assert_eq!(seen, vec![(8, 0), (0, 0), (8, 1), (3, 0), (0, 1)]);
    assert!(packets.iter().all(|p| p.code == 0));
    assert_eq!(packets[4].get_ts(), 5);
    assert_eq!(packets[4].get_direction(), PacketDirection::Backward);
    assert_eq!(packets[4].get_noise_type(), NoiseType::Clean);
    assert_eq!(packets[4].get_payload_size(), 0);
}

#[test]
fn payload_of_a_packet_is_chosen_by_the_third_draw() {
    let automaton = tcp(tcp_model(
        &[0, 1],
        vec![JsonEdge {
            src: 0,
            dst: 1,
            symbol: symbol("forward", &["ACK"], random_payload(&[10, 20, 30, 40])),
            weight: 1,
            timing: fixed(1),
        }],
        Some(3),
    ));
    for (draw, length) in [(0, 10), (0x4000_0000, 20), (0x8000_0000, 30), (u32::MAX, 40)] {
        let mut source = ScriptedSource::new(vec![0, 0, draw]);
        let packets = automaton.sample(&mut source, 0, TcpSession::new(0, 0)).unwrap();
        assert_eq!(packets.len(), 1);
        assert_eq!(packets[0].payload, Payload::Random(length));
    }
}
