//! The UDP adapter: symbols that carry a direction and a payload model, and
//! packet descriptions that number the datagrams of each side.

use crate::model::describe_direction;
use crate::model::describe_payload;
use crate::model::parse_direction;
use crate::model::parse_payload;
use crate::model::spec_parse_direction;
use crate::model::spec_parse_payload;
use crate::model::JsonProtocol;
use crate::model::JsonSymbol;
use crate::model::SymbolError;
use crate::sampling::HeaderBuilder;
use crate::structs::EdgeType;
use crate::structs::NoiseType;
use crate::structs::PacketDirection;
use crate::structs::Payload;
use crate::structs::PayloadType;
use crate::structs::PayloadView;
use crate::structs::Protocol;
use vstd::prelude::*;

verus! {

/// The symbol of a UDP edge: the datagram's direction and how its payload
/// is produced.
#[derive(Debug)]
pub struct UDPEdgeTuple {
    pub direction: PacketDirection,
    pub payload_type: PayloadType,
}

/// The UDP symbol that a description stands for, or the reason why it
/// stands for none. The direction is checked first, then that neither a
/// TCP flag nor an ICMP field is set, then the payload.
pub open spec fn spec_parse_udp_symbol(symbol: JsonSymbol) -> Result<UDPEdgeTuple, SymbolError> {
    match spec_parse_direction(symbol.direction@) {
        None => Err(SymbolError::UnknownDirection),
        Some(direction) => if symbol.flags@.len() != 0 || symbol.icmp_type is Some
            || symbol.icmp_code is Some {
            Err(SymbolError::UnexpectedField)
        } else {
            match spec_parse_payload(symbol.payload) {
                Err(cause) => Err(cause),
                Ok(payload_type) => Ok(UDPEdgeTuple { direction, payload_type }),
            }
        },
    }
}

/// Checks a symbol description and turns it into a UDP symbol.
pub fn parse_udp_symbol(symbol: JsonSymbol) -> (parsed: Result<UDPEdgeTuple, SymbolError>)
    ensures
        parsed == spec_parse_udp_symbol(symbol),
{
    let direction: PacketDirection = match parse_direction(&symbol.direction) {
        Some(direction) => direction,
        None => {
            return Err(SymbolError::UnknownDirection);
        },
    };
    if symbol.flags.len() != 0 || symbol.icmp_type.is_some() || symbol.icmp_code.is_some() {
        return Err(SymbolError::UnexpectedField);
    }
    match parse_payload(symbol.payload) {
        Err(cause) => Err(cause),
        Ok(payload_type) => Ok(UDPEdgeTuple { direction, payload_type }),
    }
}

/// Describes a UDP symbol. For a symbol with a sound payload model, reading
/// the description gives the symbol back.
pub fn describe_udp_symbol(symbol: UDPEdgeTuple) -> (description: JsonSymbol)
    ensures
        symbol.payload_type.wf() ==> spec_parse_udp_symbol(description) == Ok::<
            UDPEdgeTuple,
            SymbolError,
        >(symbol),
{
    JsonSymbol {
        direction: describe_direction(symbol.direction),
        flags: Vec::new(),
        icmp_type: None,
        icmp_code: None,
        payload: describe_payload(symbol.payload_type),
    }
}

impl EdgeType for UDPEdgeTuple {
    open spec fn payload_type(&self) -> PayloadType {
        self.payload_type
    }

    open spec fn direction(&self) -> PacketDirection {
        self.direction
    }

    open spec fn spec_parse(symbol: JsonSymbol) -> Result<Self, SymbolError> {
        spec_parse_udp_symbol(symbol)
    }

    open spec fn spec_protocol() -> JsonProtocol {
        JsonProtocol::UDP
    }

    open spec fn wf(&self) -> bool {
        self.payload_type.wf()
    }

    fn get_payload_type(&self) -> (r: &PayloadType) {
        &self.payload_type
    }

    fn get_direction(&self) -> (r: PacketDirection) {
        self.direction
    }

    fn protocol() -> (protocol: JsonProtocol) {
        JsonProtocol::UDP
    }

    fn describe(self) -> (symbol: JsonSymbol) {
        describe_udp_symbol(self)
    }

    fn parse(symbol: JsonSymbol) -> (parsed: Result<Self, SymbolError>) {
        parse_udp_symbol(symbol)
    }
}

/// The description of one UDP datagram.
#[derive(Debug, PartialEq, Eq)]
pub struct UDPPacketInfo {
    pub noise: NoiseType,
    pub direction: PacketDirection,
    /// The instant of emission, in nanoseconds.
    pub ts: u64,
    /// The number of datagrams that the same side sent before this one.
    pub index: u32,
    pub payload: Payload,
}

/// The mathematical content of a [`UDPPacketInfo`].
pub struct UDPPacketInfoView {
    pub noise: NoiseType,
    pub direction: PacketDirection,
    pub ts: u64,
    pub index: u32,
    pub payload: PayloadView,
}

impl View for UDPPacketInfo {
    type V = UDPPacketInfoView;

    open spec fn view(&self) -> UDPPacketInfoView {
        UDPPacketInfoView {
            noise: self.noise,
            direction: self.direction,
            ts: self.ts,
            index: self.index,
            payload: self.payload@,
        }
    }
}

impl Protocol for UDPPacketInfo {
    open spec fn noise_type(&self) -> NoiseType {
        self.noise
    }

    open spec fn direction(&self) -> PacketDirection {
        self.direction
    }

    open spec fn ts(&self) -> u64 {
        self.ts
    }

    open spec fn payload_size(&self) -> nat {
        self.payload@.size()
    }

    fn get_noise_type(&self) -> (r: NoiseType) {
        self.noise
    }

    fn get_direction(&self) -> (r: PacketDirection) {
        self.direction
    }

    fn get_ts(&self) -> (r: u64) {
        self.ts
    }

    fn get_payload_size(&self) -> (r: usize) {
        self.payload.get_payload_size()
    }
}

/// The datagrams of one exchange, counted by side. The counts stop at the
/// largest number they can hold.
#[derive(Debug, Clone, Copy, PartialEq, Eq, Structural)]
pub struct UdpExchange {
    pub client_sent: u32,
    pub server_sent: u32,
}

/// A count one higher, where it can be held.
pub open spec fn spec_count_up(count: u32) -> u32 {
    if count < u32::MAX {
        (count + 1) as u32
    } else {
        count
    }
}

/// The datagram for `symbol` at instant `ts`, and the exchange after it.
pub open spec fn spec_create_udp_header(
    exchange: UdpExchange,
    symbol: UDPEdgeTuple,
    payload: PayloadView,
    ts: u64,
) -> (UDPPacketInfoView, UdpExchange) {
    match symbol.direction {
        PacketDirection::Forward => (
            UDPPacketInfoView {
                noise: NoiseType::Clean,
                direction: PacketDirection::Forward,
                ts,
                index: exchange.client_sent,
                payload,
            },
            UdpExchange {
                client_sent: spec_count_up(exchange.client_sent),
                server_sent: exchange.server_sent,
            },
        ),
        PacketDirection::Backward => (
            UDPPacketInfoView {
                noise: NoiseType::Clean,
                direction: PacketDirection::Backward,
                ts,
                index: exchange.server_sent,
                payload,
            },
            UdpExchange {
                client_sent: exchange.client_sent,
                server_sent: spec_count_up(exchange.server_sent),
            },
        ),
    }
}

impl UdpExchange {
    /// An exchange in which nothing was sent yet.
    pub fn new() -> (exchange: UdpExchange)
        ensures
            exchange == (UdpExchange { client_sent: 0, server_sent: 0 }),
    {
        UdpExchange { client_sent: 0, server_sent: 0 }
    }
}

/// Describes the datagram that a UDP edge emits at instant `ts`, and counts
/// it.
pub fn create_udp_header(
    exchange: UdpExchange,
    symbol: &UDPEdgeTuple,
    payload: Payload,
    ts: u64,
) -> (built: (UDPPacketInfo, UdpExchange))
    ensures
        (built.0@, built.1) == spec_create_udp_header(exchange, *symbol, payload@, ts),
        built.0.ts == ts,
        built.0.payload == payload,
        built.0.direction == symbol.direction,
{
    match symbol.direction {
        PacketDirection::Forward => (
            UDPPacketInfo {
                noise: NoiseType::Clean,
                direction: PacketDirection::Forward,
                ts,
                index: exchange.client_sent,
                payload,
            },
            UdpExchange {
                client_sent: exchange.client_sent.saturating_add(1),
                server_sent: exchange.server_sent,
            },
        ),
        PacketDirection::Backward => (
            UDPPacketInfo {
                noise: NoiseType::Clean,
                direction: PacketDirection::Backward,
                ts,
                index: exchange.server_sent,
                payload,
            },
            UdpExchange {
                client_sent: exchange.client_sent,
                server_sent: exchange.server_sent.saturating_add(1),
            },
        ),
    }
}

impl HeaderBuilder<UDPEdgeTuple> for UdpExchange {
    type Info = UDPPacketInfo;

    open spec fn spec_build(self, symbol: UDPEdgeTuple, payload: PayloadView, ts: u64) -> (
        UDPPacketInfoView,
        UdpExchange,
    ) {
        spec_create_udp_header(self, symbol, payload, ts)
    }

    fn build(self, symbol: &UDPEdgeTuple, payload: Payload, ts: u64) -> (built: (
        UDPPacketInfo,
        UdpExchange,
    )) {
        create_udp_header(self, symbol, payload, ts)
    }
}

} // verus!
