use generation::automaton::AutomatonError;
use generation::model::JsonAutomaton;
use generation::model::JsonEdge;
use generation::model::JsonPayload;
use generation::model::JsonProtocol;
use generation::model::JsonSymbol;
use generation::model::JsonTiming;
use generation::random::SeededRng;
use generation::stage2::is_model_file;
use generation::stage2::FileOutcome;
use generation::stage2::GenerationError;
use generation::stage2::ImportError;
use generation::stage2::Loaded;
use generation::stage2::ModelFile;
use generation::stage2::Stage2;
use generation::structs::Flow;
use generation::structs::FlowData;
use generation::structs::Ipv4Address;
use generation::structs::PacketDirection;
use generation::structs::Payload;
use generation::structs::Protocol;

fn payload(kind: &str, lengths: &[usize]) -> JsonPayload {
    JsonPayload { kind: kind.to_string(), texts: vec![], blobs: vec![], lengths: lengths.to_vec() }
}

fn symbol(protocol: JsonProtocol, direction: &str, lengths: &[usize]) -> JsonSymbol {
    JsonSymbol {
        direction: direction.to_string(),
        flags: if protocol == JsonProtocol::TCP { vec!["ACK".to_string()] } else { vec![] },
        icmp_type: if protocol == JsonProtocol::ICMP { Some(8) } else { None },
        icmp_code: if protocol == JsonProtocol::ICMP { Some(0) } else { None },
        payload: if lengths.is_empty() { payload("empty", &[]) } else { payload("random", lengths) },
    }
}

fn exchange(protocol: JsonProtocol, max_steps: Option<u32>) -> JsonAutomaton {
    let edge = |src, dst, direction: &str, lengths: &[usize], min, max| JsonEdge {
        src,
        dst,
        symbol: symbol(protocol, direction, lengths),
        weight: 1,
        timing: JsonTiming { family: "uniform".to_string(), params: vec![min, max] },
    };
    JsonAutomaton {
        protocol,
        states: vec![0, 1, 2, 3],
        initial_state: 0,
        edges: vec![
            edge(0, 1, "forward", &[10, 20], 100, 200),
            edge(1, 2, "backward", &[300], 100, 200),
            edge(2, 3, "forward", &[], 100, 200),
            edge(1, 3, "backward", &[5], 0, 50),
        ],
        max_steps,
    }
}

fn flow_at(timestamp: u64) -> FlowData {
    FlowData {
        src_ip: Ipv4Address { octets: [10, 0, 0, 1] },
        dst_ip: Ipv4Address { octets: [10, 0, 0, 2] },
        src_port: 40000,
        dst_port: 443,
        recorded_ttl_client: 60,
        recorded_ttl_server: 50,
        initial_ttl_client: 64,
        initial_ttl_server: 64,
        fwd_packets_count: 2,
        bwd_packets_count: 1,
        fwd_total_payload_length: 10,
        bwd_total_payload_length: 300,
        timestamp,
        total_duration: 1_000,
    }
}

fn invalid() -> JsonAutomaton {
    let mut definition = exchange(JsonProtocol::TCP, None);
    definition.initial_state = 99;
    definition
}

#[test]
fn new_stage_is_empty() {
    let stage = Stage2::new(17);
    assert_eq!(stage.automata_count(), (0, 0, 0));
    assert_eq!(stage.rng(), SeededRng { seed: 17, position: 0 });
}

#[test]
fn generation_without_automaton_is_an_error() {
    let mut stage = Stage2::new(1);
    assert_eq!(
        stage.generate_tcp_packets_info(flow_at(0)).err(),
        Some(GenerationError::NoAutomaton)
    );
    assert_eq!(
        stage.generate_tcp_packets_info_no_flow(0).err(),
        Some(GenerationError::NoAutomaton)
    );
    assert_eq!(
        stage.generate_udp_packets_info(flow_at(0)).err(),
        Some(GenerationError::NoAutomaton)
    );
    assert_eq!(
        stage.generate_udp_packets_info_no_flow(0).err(),
        Some(GenerationError::NoAutomaton)
    );
    assert_eq!(
        stage.generate_icmp_packets_info(flow_at(0)).err(),
        Some(GenerationError::NoAutomaton)
    );
    assert_eq!(
        stage.generate_icmp_packets_info_no_flow(0).err(),
        Some(GenerationError::NoAutomaton)
    );
    assert_eq!(stage.rng().position, 0);
    // An automaton of another protocol does not help.
    stage.import_automata(exchange(JsonProtocol::UDP, None)).unwrap();
    assert_eq!(
        stage.generate_tcp_packets_info_no_flow(0).err(),
        Some(GenerationError::NoAutomaton)
    );
}

#[test]
fn import_sorts_automata_by_protocol() {
    let mut stage = Stage2::new(1);
    assert_eq!(
        stage.import_automata(exchange(JsonProtocol::TCP, Some(9))),
        Ok(Loaded { protocol: JsonProtocol::TCP, default_step_bound: false })
    );
    assert_eq!(stage.automata_count(), (1, 0, 0));
    assert_eq!(
        stage.import_automata(exchange(JsonProtocol::ICMP, None)),
        Ok(Loaded { protocol: JsonProtocol::ICMP, default_step_bound: true })
    );
    assert_eq!(stage.automata_count(), (1, 0, 1));
    stage.import_automata(exchange(JsonProtocol::UDP, None)).unwrap();
    stage.import_automata(exchange(JsonProtocol::UDP, None)).unwrap();
    assert_eq!(stage.automata_count(), (1, 2, 1));
    assert_eq!(stage.rng().position, 0);
}

#[test]
fn import_of_a_faulty_model_leaves_the_library() {
    let mut stage = Stage2::new(1);
    stage.import_automata(exchange(JsonProtocol::TCP, None)).unwrap();
    assert_eq!(
        stage.import_automata(invalid()),
        Err(ImportError::InvalidAutomaton(AutomatonError::UnknownInitialState))
    );
    assert_eq!(stage.automata_count(), (1, 0, 0));
    // A UDP model with TCP symbols is refused.
    let mut mislabelled = exchange(JsonProtocol::TCP, None);
    mislabelled.protocol = JsonProtocol::UDP;
    assert!(matches!(
        stage.import_automata(mislabelled),
        Err(ImportError::InvalidAutomaton(AutomatonError::InvalidSymbol { edge: 0, .. }))
    ));
    assert_eq!(stage.automata_count(), (1, 0, 0));
}

#[test]
fn the_first_automaton_of_the_protocol_is_sampled() {
    let mut stage = Stage2::new(3);
    let mut short = exchange(JsonProtocol::TCP, None);
    short.edges.truncate(1);
    short.states = vec![0, 1];
    stage.import_automata(short).unwrap();
    stage.import_automata(exchange(JsonProtocol::TCP, None)).unwrap();
    for _ in 0..20 {
        let ir = stage.generate_tcp_packets_info_no_flow(0).unwrap();
        assert_eq!(ir.packets_info.len(), 1);
    }
}

#[test]
fn generation_keeps_the_flow_it_was_given() {
    let mut stage = Stage2::new(5);
    stage.import_automata(exchange(JsonProtocol::TCP, None)).unwrap();
    let ir = stage.generate_tcp_packets_info(flow_at(1_000_000)).unwrap();
    match &ir.flow {
        Flow::TCPFlow(flow) => {
            assert_eq!(flow.src_ip, Ipv4Address { octets: [10, 0, 0, 1] });
            assert_eq!(flow.dst_port, 443);
            assert_eq!(flow.fwd_packets_count, 2);
            assert_eq!(flow.timestamp, 1_000_000);
            assert_eq!(flow.total_duration, 1_000);
        },
        other => panic!("unexpected flow {:?}", other),
    }
    assert!(ir.packets_info.len() == 2 || ir.packets_info.len() == 3);
    assert!(ir.packets_info[0].ts >= 1_000_100 && ir.packets_info[0].ts <= 1_000_200);
    assert_eq!(stage.rng().position, 3 * ir.packets_info.len() as u64);
    stage.import_automata(exchange(JsonProtocol::UDP, None)).unwrap();
    stage.import_automata(exchange(JsonProtocol::ICMP, None)).unwrap();
    assert!(matches!(
        stage.generate_udp_packets_info(flow_at(5)).unwrap().flow,
        Flow::UDPFlow(FlowData { timestamp: 5, dst_port: 443, .. })
    ));
    assert!(matches!(
        stage.generate_icmp_packets_info(flow_at(6)).unwrap().flow,
        Flow::ICMPFlow(FlowData { timestamp: 6, dst_port: 443, .. })
    ));
}

#[test]
fn flow_is_rebuilt_from_the_sampled_packets() {
    let mut stage = Stage2::new(11);
    stage.import_automata(exchange(JsonProtocol::TCP, None)).unwrap();
    for round in 0..50u64 {
        let start = 1_000 * round;
        let ir = stage.generate_tcp_packets_info_no_flow(start).unwrap();
        let flow = match &ir.flow {
            Flow::TCPFlow(flow) => flow,
            other => panic!("unexpected flow {:?}", other),
        };
        let packets = &ir.packets_info;
        let count =
            |d: PacketDirection| packets.iter().filter(|p| p.direction == d).count() as u32;
        let bytes = |d: PacketDirection| {
            packets
                .iter()
                .filter(|p| p.direction == d)
                .map(|p| p.payload.get_payload_size())
                .sum::<usize>() as u32
        };
        assert_eq!(flow.fwd_packets_count, count(PacketDirection::Forward));
        assert_eq!(flow.bwd_packets_count, count(PacketDirection::Backward));
        assert_eq!(flow.fwd_total_payload_length, bytes(PacketDirection::Forward));
        assert_eq!(flow.bwd_total_payload_length, bytes(PacketDirection::Backward));
        assert_eq!(flow.timestamp, start);
        assert_eq!(flow.total_duration, packets.last().unwrap().ts - start);
        assert_eq!(flow.src_ip, Ipv4Address { octets: [192, 168, 1, 8] });
        assert_eq!(flow.dst_ip, Ipv4Address { octets: [192, 168, 1, 14] });
        assert_eq!((flow.src_port, flow.dst_port), (34200, 8080));
        assert_eq!((flow.recorded_ttl_client, flow.recorded_ttl_server), (23, 68));
        assert_eq!((flow.initial_ttl_client, flow.initial_ttl_server), (255, 255));
        // Either forward 10 or 20, backward 300, forward nothing; or
        // forward 10 or 20, backward 5.
        if packets.len() == 3 {
            assert_eq!(flow.bwd_total_payload_length, 300);
            assert_eq!(flow.fwd_packets_count, 2);
        } else {
            assert_eq!(packets.len(), 2);
            assert_eq!(flow.bwd_total_payload_length, 5);
            assert_eq!(flow.fwd_packets_count, 1);
        }
        assert!(flow.fwd_total_payload_length == 10 || flow.fwd_total_payload_length == 20);
    }
}

#[test]
fn flows_of_other_protocols_are_rebuilt_too() {
    let mut stage = Stage2::new(11);
    stage.import_automata(exchange(JsonProtocol::UDP, None)).unwrap();
    stage.import_automata(exchange(JsonProtocol::ICMP, None)).unwrap();
    let udp = stage.generate_udp_packets_info_no_flow(40).unwrap();
    match &udp.flow {
        Flow::UDPFlow(flow) => {
            assert_eq!(flow.timestamp, 40);
            assert_eq!(
                flow.fwd_packets_count + flow.bwd_packets_count,
                udp.packets_info.len() as u32
            );
            assert_eq!(flow.total_duration, udp.packets_info.last().unwrap().get_ts() - 40);
        },
        other => panic!("unexpected flow {:?}", other),
    }
    let icmp = stage.generate_icmp_packets_info_no_flow(50).unwrap();
    match &icmp.flow {
        Flow::ICMPFlow(flow) => {
            assert_eq!(flow.timestamp, 50);
            assert_eq!(
                flow.fwd_packets_count + flow.bwd_packets_count,
                icmp.packets_info.len() as u32
            );
        },
        other => panic!("unexpected flow {:?}", other),
    }
}

#[test]
fn flow_of_an_empty_run_is_empty() {
    let mut stage = Stage2::new(11);
    stage
        .import_automata(JsonAutomaton {
            protocol: JsonProtocol::TCP,
            states: vec![1],
            initial_state: 1,
            edges: vec![],
            max_steps: None,
        })
        .unwrap();
    let ir = stage.generate_tcp_packets_info_no_flow(123).unwrap();
    assert!(ir.packets_info.is_empty());
    match ir.flow {
        Flow::TCPFlow(flow) => {
            assert_eq!(flow.fwd_packets_count, 0);
            assert_eq!(flow.bwd_packets_count, 0);
            assert_eq!(flow.timestamp, 123);
            assert_eq!(flow.total_duration, 0);
        },
        other => panic!("unexpected flow {:?}", other),
    }
    assert_eq!(stage.rng().position, 0);
}

#[test]
fn run_past_the_step_bound_is_an_error() {
    let mut stage = Stage2::new(2);
    let mut cycle = exchange(JsonProtocol::TCP, Some(7));
    cycle.states = vec![0];
    cycle.edges.truncate(1);
    cycle.edges[0].dst = 0;
    stage.import_automata(cycle).unwrap();
    assert_eq!(
        stage.generate_tcp_packets_info_no_flow(0).err(),
        Some(GenerationError::StepLimitExceeded)
    );
    assert_eq!(stage.rng().position, 21);
    assert_eq!(
        stage.generate_tcp_packets_info(flow_at(0)).err(),
        Some(GenerationError::StepLimitExceeded)
    );
    assert_eq!(stage.rng().position, 42);
}

#[test]
fn stages_with_the_same_seed_generate_the_same() {
    let run = |seed: u64| {
        let mut stage = Stage2::new(seed);
        stage.import_automata(exchange(JsonProtocol::TCP, None)).unwrap();
        let mut all = Vec::new();
        for round in 0..10 {
            all.push(stage.generate_tcp_packets_info_no_flow(round).unwrap().packets_info);
        }
        (all, stage.rng())
    };
    let (first, first_rng) = run(77);
    let (second, second_rng) = run(77);
    assert_eq!(first, second);
    assert_eq!(first_rng, second_rng);
    let (other, _) = run(78);
    assert_ne!(first, other);
}

#[test]
fn samples_continue_the_stream() {
    // Ten samples from one stage are the samples of ten stages that start
    // where the one before stopped.
    let mut stage = Stage2::new(6);
    stage.import_automata(exchange(JsonProtocol::UDP, None)).unwrap();
    let first = stage.generate_udp_packets_info_no_flow(0).unwrap().packets_info;
    let position = stage.rng().position;
    let second = stage.generate_udp_packets_info_no_flow(0).unwrap().packets_info;
    let automaton = generation::automaton::TimedAutomaton::<generation::udp::UDPEdgeTuple>::import_timed_automaton(
        exchange(JsonProtocol::UDP, None),
    )
    .unwrap();
    let mut rng = SeededRng::new(6);
    assert_eq!(automaton.sample(&mut rng, 0, generation::udp::UdpExchange::new()).unwrap(), first);
    assert_eq!(rng.position, position);
    assert_eq!(automaton.sample(&mut rng, 0, generation::udp::UdpExchange::new()).unwrap(), second);
    assert_eq!(rng, stage.rng());
}

fn long_loop() -> JsonAutomaton {
    // A loop of full packets that a run leaves once in 100 000 steps.
    let edge = |dst, weight| JsonEdge {
        src: 0,
        dst,
        symbol: symbol(JsonProtocol::UDP, "forward", &[65_535]),
        weight,
        timing: JsonTiming { family: "fixed".to_string(), params: vec![1] },
    };
    JsonAutomaton {
        protocol: JsonProtocol::UDP,
        states: vec![0, 1],
        initial_state: 0,
        edges: vec![edge(0, 99_999), edge(1, 1)],
        max_steps: Some(2_000_000),
    }
}

#[test]
fn flow_that_cannot_hold_the_totals_is_an_error() {
    // 65 538 packets of 65 535 bytes are more than 2^32 bytes.
    let automaton = generation::automaton::TimedAutomaton::<generation::udp::UDPEdgeTuple>::import_timed_automaton(
        long_loop(),
    )
    .unwrap();
    let mut overflows = 0;
    let mut fits = 0;
    for seed in 0..8 {
        let mut rng = SeededRng::new(seed);
        let packets = automaton.walk(&mut rng, 0).unwrap().len() as u64;
        let mut stage = Stage2::new(seed);
        stage.import_automata(long_loop()).unwrap();
        match stage.generate_udp_packets_info_no_flow(0) {
            Ok(ir) => {
                assert!(packets * 65_535 <= u32::MAX as u64);
                assert_eq!(ir.packets_info.len() as u64, packets);
                fits += 1;
            },
            Err(error) => {
                assert_eq!(error, GenerationError::FlowOverflow);
                assert!(packets * 65_535 > u32::MAX as u64);
                overflows += 1;
            },
        }
        assert_eq!(stage.rng(), rng);
    }
    assert!(overflows > 0 && fits > 0, "{} overflows, {} fits", overflows, fits);
}

#[test]
fn model_files_are_told_by_their_name() {
    assert!(is_model_file("tcp.json", false));
    assert!(is_model_file("a.json", false));
    assert!(is_model_file("model.v2.json", false));
    assert!(is_model_file("..json", false));
    assert!(is_model_file("é.json", false));
    assert!(!is_model_file("tcp.json", true));
    assert!(!is_model_file(".json", false));
    assert!(!is_model_file("json", false));
    assert!(!is_model_file("", false));
    assert!(!is_model_file("tcp.JSON", false));
    assert!(!is_model_file("tcp.json.bak", false));
    assert!(!is_model_file("tcpjson", false));
    assert!(!is_model_file("tcp.jso", false));
    assert!(!is_model_file("tcp.json ", false));
}

#[test]
fn directory_import_passes_over_faulty_files() {
    let mut stage = Stage2::new(1);
    let files = vec![
        ModelFile {
            file_name: "a.json".to_string(),
            content: Ok(exchange(JsonProtocol::TCP, Some(50))),
        },
        ModelFile {
            file_name: "b.json".to_string(),
            content: Err(ImportError::MalformedJson("expected value at line 1".to_string())),
        },
        ModelFile { file_name: "c.json".to_string(), content: Ok(exchange(JsonProtocol::UDP, None)) },
        ModelFile { file_name: "d.json".to_string(), content: Ok(invalid()) },
        ModelFile { file_name: "e.json".to_string(), content: Ok(exchange(JsonProtocol::TCP, None)) },
    ];
    let report = stage.import_automata_from_dir(files);
    assert_eq!(report.loaded, 3);
    assert_eq!(stage.automata_count(), (2, 1, 0));
    assert_eq!(
        report.outcomes,
        vec![
            FileOutcome {
                file_name: "a.json".to_string(),
                result: Ok(Loaded { protocol: JsonProtocol::TCP, default_step_bound: false }),
            },
            FileOutcome {
                file_name: "b.json".to_string(),
                result: Err(ImportError::MalformedJson("expected value at line 1".to_string())),
            },
            FileOutcome {
                file_name: "c.json".to_string(),
                result: Ok(Loaded { protocol: JsonProtocol::UDP, default_step_bound: true }),
            },
            FileOutcome {
                file_name: "d.json".to_string(),
                result: Err(ImportError::InvalidAutomaton(AutomatonError::UnknownInitialState)),
            },
            FileOutcome {
                file_name: "e.json".to_string(),
                result: Ok(Loaded { protocol: JsonProtocol::TCP, default_step_bound: true }),
            },
        ]
    );
    let failures: Vec<&ImportError> =
        report.outcomes.iter().filter_map(|o| o.result.as_ref().err()).collect();
    assert_eq!(failures.len(), 2);
    assert_ne!(failures[0], failures[1]);
}

#[test]
fn directory_import_keeps_what_was_loaded_before() {
    let mut stage = Stage2::new(1);
    stage.import_automata(exchange(JsonProtocol::ICMP, None)).unwrap();
    let report = stage.import_automata_from_dir(vec![
        ModelFile {
            file_name: "x.json".to_string(),
            content: Err(ImportError::Io("permission denied".to_string())),
        },
        ModelFile {
            file_name: "y.json".to_string(),
            content: Err(ImportError::UnknownProtocol("SCTP".to_string())),
        },
    ]);
    assert_eq!(report.loaded, 0);
    assert_eq!(report.outcomes.len(), 2);
    assert_eq!(report.outcomes[0].result, Err(ImportError::Io("permission denied".to_string())));
    assert_eq!(
        report.outcomes[1].result,
        Err(ImportError::UnknownProtocol("SCTP".to_string()))
    );
    assert_eq!(stage.automata_count(), (0, 0, 1));
    let empty = stage.import_automata_from_dir(vec![]);
    assert_eq!(empty.loaded, 0);
    assert!(empty.outcomes.is_empty());
}

#[test]
fn payload_of_sampled_packets_comes_from_the_model() {
    let mut stage = Stage2::new(21);
    stage.import_automata(exchange(JsonProtocol::UDP, None)).unwrap();
    let mut seen_ten = false;
    let mut seen_twenty = false;
    for _ in 0..200 {
        let ir = stage.generate_udp_packets_info_no_flow(0).unwrap();
        match ir.packets_info[0].payload {
            Payload::Random(10) => seen_ten = true,
            Payload::Random(20) => seen_twenty = true,
            ref other => panic!("unexpected payload {:?}", other),
        }
    }
    assert!(seen_ten && seen_twenty);
}
