use generation::flow::reconstruct_flow;
use generation::structs::FlowData;
use generation::structs::Ipv4Address;
use generation::structs::NoiseType;
use generation::structs::PacketDirection;
use generation::structs::Payload;
use generation::tcp::TCPPacketInfo;
use generation::tcp::TcpFlags;
use generation::udp::UDPPacketInfo;

fn packet(direction: PacketDirection, ts: u64, payload: Payload) -> TCPPacketInfo {
    TCPPacketInfo {
        noise: NoiseType::Clean,
        direction,
        ts,
        flags: TcpFlags { syn: false, ack: true, fin: false, rst: false, psh: false, urg: false },
        seq: 0,
        ack: 0,
        payload,
    }
}

fn same_flow(a: &FlowData, b: &FlowData) -> bool {
    a.src_ip == b.src_ip
        && a.dst_ip == b.dst_ip
        && a.src_port == b.src_port
        && a.dst_port == b.dst_port
        && a.recorded_ttl_client == b.recorded_ttl_client
        && a.recorded_ttl_server == b.recorded_ttl_server
        && a.initial_ttl_client == b.initial_ttl_client
        && a.initial_ttl_server == b.initial_ttl_server
        && a.fwd_packets_count == b.fwd_packets_count
        && a.bwd_packets_count == b.bwd_packets_count
        && a.fwd_total_payload_length == b.fwd_total_payload_length
        && a.bwd_total_payload_length == b.bwd_total_payload_length
        && a.timestamp == b.timestamp
        && a.total_duration == b.total_duration
}

#[test]
fn flow_counts_packets_and_bytes_by_direction() {
    let packets = vec![
        packet(PacketDirection::Forward, 1_010, Payload::Empty),
        packet(PacketDirection::Backward, 1_020, Payload::Empty),
        packet(PacketDirection::Forward, 1_030, Payload::Random(100)),
        packet(PacketDirection::Forward, 1_040, Payload::Replay(vec![1, 2, 3])),
        packet(PacketDirection::Backward, 1_050, Payload::Random(7)),
        packet(PacketDirection::Forward, 1_500, Payload::Empty),
    ];
    let flow = reconstruct_flow(&packets, 1_000).unwrap();
    let expected = FlowData {
        src_ip: Ipv4Address { octets: [192, 168, 1, 8] },
        dst_ip: Ipv4Address { octets: [192, 168, 1, 14] },
        src_port: 34200,
        dst_port: 8080,
        recorded_ttl_client: 23,
        recorded_ttl_server: 68,
        initial_ttl_client: 255,
        initial_ttl_server: 255,
        fwd_packets_count: 4,
        bwd_packets_count: 2,
        fwd_total_payload_length: 103,
        bwd_total_payload_length: 7,
        timestamp: 1_000,
        total_duration: 500,
    };
    assert!(same_flow(&flow, &expected), "{:?}", flow);
}

#[test]
fn flow_of_no_packets_is_empty() {
    let packets: Vec<TCPPacketInfo> = vec![];
    let flow = reconstruct_flow(&packets, 77).unwrap();
    assert_eq!(flow.fwd_packets_count, 0);
    assert_eq!(flow.bwd_packets_count, 0);
    assert_eq!(flow.fwd_total_payload_length, 0);
    assert_eq!(flow.bwd_total_payload_length, 0);
    assert_eq!(flow.timestamp, 77);
    assert_eq!(flow.total_duration, 0);
}

#[test]
fn flow_duration_is_zero_where_the_last_packet_is_early() {
    let packets = vec![packet(PacketDirection::Forward, 10, Payload::Empty)];
    assert_eq!(reconstruct_flow(&packets, 10).unwrap().total_duration, 0);
    assert_eq!(reconstruct_flow(&packets, 11).unwrap().total_duration, 0);
    assert_eq!(reconstruct_flow(&packets, 3).unwrap().total_duration, 7);
}

#[test]
fn flow_totals_must_fit_in_32_bits() {
    let at_limit = vec![
        packet(PacketDirection::Backward, 1, Payload::Random(u32::MAX as usize - 1)),
        packet(PacketDirection::Backward, 2, Payload::Random(1)),
    ];
    assert_eq!(reconstruct_flow(&at_limit, 0).unwrap().bwd_total_payload_length, u32::MAX);
    let over = vec![
        packet(PacketDirection::Backward, 1, Payload::Random(u32::MAX as usize)),
        packet(PacketDirection::Backward, 2, Payload::Random(1)),
    ];
    assert!(reconstruct_flow(&over, 0).is_none());
    let forward_over = vec![
        packet(PacketDirection::Forward, 1, Payload::Random(usize::MAX)),
        packet(PacketDirection::Forward, 2, Payload::Random(usize::MAX)),
    ];
    assert!(reconstruct_flow(&forward_over, 0).is_none());
    // The other direction's total does not help.
    let split = vec![
        packet(PacketDirection::Forward, 1, Payload::Random(u32::MAX as usize)),
        packet(PacketDirection::Backward, 2, Payload::Random(u32::MAX as usize)),
    ];
    let flow = reconstruct_flow(&split, 0).unwrap();
    assert_eq!(flow.fwd_total_payload_length, u32::MAX);
    assert_eq!(flow.bwd_total_payload_length, u32::MAX);
}

#[test]
fn flow_totals_equal_totals_by_filtering() {
    let mut packets = Vec::new();
    for i in 0..200u64 {
        let direction =
            if i % 3 == 0 { PacketDirection::Backward } else { PacketDirection::Forward };
        let payload = match i % 4 {
            0 => Payload::Empty,
            1 => Payload::Random(i as usize),
            _ => Payload::Replay(vec![0; (i % 17) as usize]),
        };
        packets.push(UDPPacketInfo {
            noise: NoiseType::Clean,
            direction,
            ts: 10 * i,
            index: 0,
            payload,
        });
    }
    let flow = reconstruct_flow(&packets, 0).unwrap();
    let count = |d: PacketDirection| packets.iter().filter(|p| p.direction == d).count() as u32;
    let bytes = |d: PacketDirection| {
        packets
            .iter()
            .filter(|p| p.direction == d)
            .map(|p| p.payload.get_payload_size())
            .sum::<usize>() as u32
    };
    assert_eq!(flow.fwd_packets_count, count(PacketDirection::Forward));
    assert_eq!(flow.bwd_packets_count, count(PacketDirection::Backward));
    assert_eq!(flow.fwd_total_payload_length, bytes(PacketDirection::Forward));
    assert_eq!(flow.bwd_total_payload_length, bytes(PacketDirection::Backward));
    assert_eq!(flow.fwd_packets_count + flow.bwd_packets_count, 200);
    assert_eq!(flow.total_duration, 1_990);
}
