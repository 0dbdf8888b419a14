//! Flow statistics rebuilt from a sampled packet sequence.

use crate::structs::FlowData;
use crate::structs::Ipv4Address;
use crate::structs::PacketDirection;
use crate::structs::Protocol;
use vstd::prelude::*;

verus! {

/// The test that a packet travels in `direction`.
pub open spec fn in_direction<T: Protocol>(direction: PacketDirection) -> spec_fn(T) -> bool {
    |packet: T| packet.direction() == direction
}

/// The payload bytes of all packets of a sequence.
pub open spec fn total_payload<T: Protocol>(packets: Seq<T>) -> nat
    decreases packets.len(),
{
    if packets.len() == 0 {
        0
    } else {
        total_payload(packets.drop_last()) + packets.last().payload_size()
    }
}

/// The number of packets that travel in `direction`.
pub open spec fn packets_in<T: Protocol>(packets: Seq<T>, direction: PacketDirection) -> nat {
    packets.filter(in_direction::<T>(direction)).len()
}

/// The payload bytes of the packets that travel in `direction`.
pub open spec fn payload_in<T: Protocol>(packets: Seq<T>, direction: PacketDirection) -> nat {
    total_payload(packets.filter(in_direction::<T>(direction)))
}

/// The time from `start` to the last packet; zero where there is no packet
/// or the last packet lies before `start`.
pub open spec fn span_of<T: Protocol>(packets: Seq<T>, start: u64) -> u64 {
    if packets.len() == 0 || packets.last().ts() < start {
        0
    } else {
        (packets.last().ts() - start) as u64
    }
}

/// Whether the statistics of a sequence can be held in a flow: the four
/// totals fit in 32 bits.
pub open spec fn flow_fits<T: Protocol>(packets: Seq<T>) -> bool {
    &&& packets_in(packets, PacketDirection::Forward) <= u32::MAX
    &&& packets_in(packets, PacketDirection::Backward) <= u32::MAX
    &&& payload_in(packets, PacketDirection::Forward) <= u32::MAX
    &&& payload_in(packets, PacketDirection::Backward) <= u32::MAX
}

/// The flow of which `packets` are the packets when it starts at `start`:
/// packets and payload bytes are counted by direction, the duration runs
/// from `start` to the last packet, and the endpoints are those of the
/// default profile.
pub open spec fn spec_reconstruct<T: Protocol>(packets: Seq<T>, start: u64) -> FlowData {
    FlowData {
        src_ip: Ipv4Address { octets: [192, 168, 1, 8] },
        dst_ip: Ipv4Address { octets: [192, 168, 1, 14] },
        src_port: 34200,
        dst_port: 8080,
        recorded_ttl_client: 23,
        recorded_ttl_server: 68,
        initial_ttl_client: 255,
        initial_ttl_server: 255,
        fwd_packets_count: packets_in(packets, PacketDirection::Forward) as u32,
        bwd_packets_count: packets_in(packets, PacketDirection::Backward) as u32,
        fwd_total_payload_length: payload_in(packets, PacketDirection::Forward) as u32,
        bwd_total_payload_length: payload_in(packets, PacketDirection::Backward) as u32,
        timestamp: start,
        total_duration: span_of(packets, start),
    }
}

/// Counting one packet more adds it to the totals of its direction and
/// leaves the other direction's totals as they are.
pub proof fn lemma_count_next<T: Protocol>(packets: Seq<T>, i: int, direction: PacketDirection)
    requires
        0 <= i < packets.len(),
    ensures
        packets_in(packets.take(i + 1), direction) == packets_in(packets.take(i), direction)
            + if packets[i].direction() == direction {
            1nat
        } else {
            0nat
        },
        payload_in(packets.take(i + 1), direction) == payload_in(packets.take(i), direction)
            + if packets[i].direction() == direction {
            packets[i].payload_size()
        } else {
            0nat
        },
{
    reveal(Seq::filter);
    let longer = packets.take(i + 1);
    let kept = packets.take(i).filter(in_direction::<T>(direction));
    assert(longer.drop_last() =~= packets.take(i));
    assert(longer.last() == packets[i]);
    if packets[i].direction() == direction {
        assert(longer.filter(in_direction::<T>(direction)) == kept.push(packets[i]));
        assert(kept.push(packets[i]).drop_last() =~= kept);
    } else {
        assert(longer.filter(in_direction::<T>(direction)) == kept);
    }
}

/// Rebuilds the statistics of a flow from its packets. The result is
/// `None` where a total does not fit in the flow's 32-bit fields.
pub fn reconstruct_flow<T: Protocol>(packets: &Vec<T>, start: u64) -> (flow: Option<FlowData>)
    ensures
        flow is Some == flow_fits(packets@),
        flow matches Some(data) ==> data == spec_reconstruct(packets@, start),
{
    let mut fwd_packets: u64 = 0;
    let mut bwd_packets: u64 = 0;
    let mut fwd_payload: u128 = 0;
    let mut bwd_payload: u128 = 0;
    let mut i: usize = 0;
    proof {
        assert(packets@.take(0).filter(in_direction::<T>(PacketDirection::Forward)).len() == 0);
        assert(packets@.take(0).filter(in_direction::<T>(PacketDirection::Backward)).len() == 0);
    }
    while i < packets.len()
        invariant
            i <= packets@.len(),
            fwd_packets == packets_in(packets@.take(i as int), PacketDirection::Forward),
            bwd_packets == packets_in(packets@.take(i as int), PacketDirection::Backward),
            fwd_payload == payload_in(packets@.take(i as int), PacketDirection::Forward),
            bwd_payload == payload_in(packets@.take(i as int), PacketDirection::Backward),
            fwd_packets <= i,
            bwd_packets <= i,
            fwd_payload <= i * usize::MAX,
            bwd_payload <= i * usize::MAX,
        decreases packets.len() - i,
    {
        proof {
            lemma_count_next(packets@, i as int, PacketDirection::Forward);
            lemma_count_next(packets@, i as int, PacketDirection::Backward);
            assert((i + 1) * usize::MAX == i * usize::MAX + usize::MAX) by (nonlinear_arith);
            let limit: int = usize::MAX as int;
            assert(i * limit <= 0xffff_ffff_ffff_ffff * 0xffff_ffff_ffff_ffff) by (nonlinear_arith)
                requires
                    0 <= i <= 0xffff_ffff_ffff_ffff,
                    0 <= limit <= 0xffff_ffff_ffff_ffff,
            ;
        }
        let size: usize = packets[i].get_payload_size();
        match packets[i].get_direction() {
            PacketDirection::Forward => {
                fwd_packets = fwd_packets + 1;
                fwd_payload = fwd_payload + size as u128;
            },
            PacketDirection::Backward => {
                bwd_packets = bwd_packets + 1;
                bwd_payload = bwd_payload + size as u128;
            },
        }
        i = i + 1;
    }
    proof {
        assert(packets@.take(packets@.len() as int) =~= packets@);
    }
    if fwd_packets > u32::MAX as u64 || bwd_packets > u32::MAX as u64 || fwd_payload
        > u32::MAX as u128 || bwd_payload > u32::MAX as u128 {
        return None;
    }
    let total_duration: u64 = if packets.len() == 0 {
        0
    } else {
        let last: u64 = packets[packets.len() - 1].get_ts();
        if last < start {
            0
        } else {
            last - start
        }
    };
    Some(
        FlowData {
            src_ip: Ipv4Address { octets: [192, 168, 1, 8] },
            dst_ip: Ipv4Address { octets: [192, 168, 1, 14] },
            src_port: 34200,
            dst_port: 8080,
            recorded_ttl_client: 23,
            recorded_ttl_server: 68,
            initial_ttl_client: 255,
            initial_ttl_server: 255,
            fwd_packets_count: fwd_packets as u32,
            bwd_packets_count: bwd_packets as u32,
            fwd_total_payload_length: fwd_payload as u32,
            bwd_total_payload_length: bwd_payload as u32,
            timestamp: start,
            total_duration,
        },
    )
}

} // verus!
