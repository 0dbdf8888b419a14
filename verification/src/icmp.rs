//! The ICMP adapter: symbols that carry a message type and code, and packet
//! descriptions that number echo requests and their replies.

use crate::model::describe_direction;
use crate::model::describe_payload;
use crate::model::parse_direction;
use crate::model::parse_payload;
use crate::model::spec_parse_direction;
use crate::model::spec_parse_payload;
use crate::model::JsonProtocol;
use crate::model::JsonSymbol;
use crate::model::SymbolError;
use crate::sampling::HeaderBuilder;
use crate::structs::EdgeType;
use crate::structs::NoiseType;
use crate::structs::PacketDirection;
use crate::structs::Payload;
use crate::structs::PayloadType;
use crate::structs::PayloadView;
use crate::structs::Protocol;
use vstd::prelude::*;

verus! {

/// The type of an echo request.
pub const ICMP_ECHO_REQUEST: u8 = 8;

/// The type of an echo reply.
pub const ICMP_ECHO_REPLY: u8 = 0;

/// The symbol of an ICMP edge: the message's type and code, its direction
/// and how its payload is produced.
#[derive(Debug)]
pub struct ICMPEdgeTuple {
    pub icmp_type: u8,
    pub code: u8,
    pub direction: PacketDirection,
    pub payload_type: PayloadType,
}

/// The ICMP symbol that a description stands for, or the reason why it
/// stands for none. The direction is checked first, then that no TCP flag
/// is set, then that type and code are there, then the payload.
pub open spec fn spec_parse_icmp_symbol(symbol: JsonSymbol) -> Result<ICMPEdgeTuple, SymbolError> {
    match spec_parse_direction(symbol.direction@) {
        None => Err(SymbolError::UnknownDirection),
        Some(direction) => if symbol.flags@.len() != 0 {
            Err(SymbolError::UnexpectedField)
        } else if symbol.icmp_type is None || symbol.icmp_code is None {
            Err(SymbolError::MissingField)
        } else {
            match spec_parse_payload(symbol.payload) {
                Err(cause) => Err(cause),
                Ok(payload_type) => Ok(
                    ICMPEdgeTuple {
                        icmp_type: symbol.icmp_type->0,
                        code: symbol.icmp_code->0,
                        direction,
                        payload_type,
                    },
                ),
            }
        },
    }
}

/// Checks a symbol description and turns it into an ICMP symbol.
pub fn parse_icmp_symbol(symbol: JsonSymbol) -> (parsed: Result<ICMPEdgeTuple, SymbolError>)
    ensures
        parsed == spec_parse_icmp_symbol(symbol),
{
    let direction: PacketDirection = match parse_direction(&symbol.direction) {
        Some(direction) => direction,
        None => {
            return Err(SymbolError::UnknownDirection);
        },
    };
    if symbol.flags.len() != 0 {
        return Err(SymbolError::UnexpectedField);
    }
    let (icmp_type, code) = match (symbol.icmp_type, symbol.icmp_code) {
        (Some(icmp_type), Some(code)) => (icmp_type, code),
        _ => {
            return Err(SymbolError::MissingField);
        },
    };
    match parse_payload(symbol.payload) {
        Err(cause) => Err(cause),
        Ok(payload_type) => Ok(ICMPEdgeTuple { icmp_type, code, direction, payload_type }),
    }
}

/// Describes an ICMP symbol. For a symbol with a sound payload model,
/// reading the description gives the symbol back.
pub fn describe_icmp_symbol(symbol: ICMPEdgeTuple) -> (description: JsonSymbol)
    ensures
        symbol.payload_type.wf() ==> spec_parse_icmp_symbol(description) == Ok::<
            ICMPEdgeTuple,
            SymbolError,
        >(symbol),
{
    JsonSymbol {
        direction: describe_direction(symbol.direction),
        flags: Vec::new(),
        icmp_type: Some(symbol.icmp_type),
        icmp_code: Some(symbol.code),
        payload: describe_payload(symbol.payload_type),
    }
}

impl EdgeType for ICMPEdgeTuple {
    open spec fn payload_type(&self) -> PayloadType {
        self.payload_type
    }

    open spec fn direction(&self) -> PacketDirection {
        self.direction
    }

    open spec fn spec_parse(symbol: JsonSymbol) -> Result<Self, SymbolError> {
        spec_parse_icmp_symbol(symbol)
    }

    open spec fn spec_protocol() -> JsonProtocol {
        JsonProtocol::ICMP
    }

    open spec fn wf(&self) -> bool {
        self.payload_type.wf()
    }

    fn get_payload_type(&self) -> (r: &PayloadType) {
        &self.payload_type
    }

    fn get_direction(&self) -> (r: PacketDirection) {
        self.direction
    }

    fn protocol() -> (protocol: JsonProtocol) {
        JsonProtocol::ICMP
    }

    fn describe(self) -> (symbol: JsonSymbol) {
        describe_icmp_symbol(self)
    }

    fn parse(symbol: JsonSymbol) -> (parsed: Result<Self, SymbolError>) {
        parse_icmp_symbol(symbol)
    }
}

/// The description of one ICMP message.
#[derive(Debug, PartialEq, Eq)]
pub struct ICMPPacketInfo {
    pub noise: NoiseType,
    pub direction: PacketDirection,
    /// The instant of emission, in nanoseconds.
    pub ts: u64,
    pub icmp_type: u8,
    pub code: u8,
    /// The sequence number of an echo request or reply; zero for other
    /// messages.
    pub sequence: u16,
    pub payload: Payload,
}

/// The mathematical content of an [`ICMPPacketInfo`].
pub struct ICMPPacketInfoView {
    pub noise: NoiseType,
    pub direction: PacketDirection,
    pub ts: u64,
    pub icmp_type: u8,
    pub code: u8,
    pub sequence: u16,
    pub payload: PayloadView,
}

impl View for ICMPPacketInfo {
    type V = ICMPPacketInfoView;

    open spec fn view(&self) -> ICMPPacketInfoView {
        ICMPPacketInfoView {
            noise: self.noise,
            direction: self.direction,
            ts: self.ts,
            icmp_type: self.icmp_type,
            code: self.code,
            sequence: self.sequence,
            payload: self.payload@,
        }
    }
}

impl Protocol for ICMPPacketInfo {
    open spec fn noise_type(&self) -> NoiseType {
        self.noise
    }

    open spec fn direction(&self) -> PacketDirection {
        self.direction
    }

    open spec fn ts(&self) -> u64 {
        self.ts
    }

    open spec fn payload_size(&self) -> nat {
        self.payload@.size()
    }

    fn get_noise_type(&self) -> (r: NoiseType) {
        self.noise
    }

    fn get_direction(&self) -> (r: PacketDirection) {
        self.direction
    }

    fn get_ts(&self) -> (r: u64) {
        self.ts
    }

    fn get_payload_size(&self) -> (r: usize) {
        self.payload.get_payload_size()
    }
}

/// The echo requests of one exchange: the sequence number that the next
/// request carries, and the one that the last request carried.
#[derive(Debug, Clone, Copy, PartialEq, Eq, Structural)]
pub struct IcmpExchange {
    pub next_request: u16,
    pub last_request: u16,
}

/// The sequence number after `sequence`; sequence numbers count modulo
/// 2^16.
pub open spec fn spec_next_sequence(sequence: u16) -> u16 {
    if sequence < u16::MAX {
        (sequence + 1) as u16
    } else {
        0
    }
}

/// The message for `symbol` at instant `ts`, and the exchange after it. An
/// echo request carries the next sequence number; an echo reply carries
/// the sequence number of the last request; any other message carries
/// zero and leaves the exchange as it is.
pub open spec fn spec_create_icmp_header(
    exchange: IcmpExchange,
    symbol: ICMPEdgeTuple,
    payload: PayloadView,
    ts: u64,
) -> (ICMPPacketInfoView, IcmpExchange) {
    let sequence = if symbol.icmp_type == ICMP_ECHO_REQUEST {
        exchange.next_request
    } else if symbol.icmp_type == ICMP_ECHO_REPLY {
        exchange.last_request
    } else {
        0
    };
    let after = if symbol.icmp_type == ICMP_ECHO_REQUEST {
        IcmpExchange {
            next_request: spec_next_sequence(exchange.next_request),
            last_request: exchange.next_request,
        }
    } else {
        exchange
    };
    (
        ICMPPacketInfoView {
            noise: NoiseType::Clean,
            direction: symbol.direction,
            ts,
            icmp_type: symbol.icmp_type,
            code: symbol.code,
            sequence,
            payload,
        },
        after,
    )
}

impl IcmpExchange {
    /// An exchange in which nothing was sent yet.
    pub fn new() -> (exchange: IcmpExchange)
        ensures
            exchange == (IcmpExchange { next_request: 0, last_request: 0 }),
    {
        IcmpExchange { next_request: 0, last_request: 0 }
    }
}

/// Describes the message that an ICMP edge emits at instant `ts`, and moves
/// the exchange on.
pub fn create_icmp_header(
    exchange: IcmpExchange,
    symbol: &ICMPEdgeTuple,
    payload: Payload,
    ts: u64,
) -> (built: (ICMPPacketInfo, IcmpExchange))
    ensures
        (built.0@, built.1) == spec_create_icmp_header(exchange, *symbol, payload@, ts),
        built.0.ts == ts,
        built.0.payload == payload,
        built.0.direction == symbol.direction,
{
    let sequence: u16 = if symbol.icmp_type == ICMP_ECHO_REQUEST {
        exchange.next_request
    } else if symbol.icmp_type == ICMP_ECHO_REPLY {
        exchange.last_request
    } else {
        0
    };
    let after: IcmpExchange = if symbol.icmp_type == ICMP_ECHO_REQUEST {
        IcmpExchange {
            next_request: exchange.next_request.wrapping_add(1),
            last_request: exchange.next_request,
        }
    } else {
        exchange
    };
    (
        ICMPPacketInfo {
            noise: NoiseType::Clean,
            direction: symbol.direction,
            ts,
            icmp_type: symbol.icmp_type,
            code: symbol.code,
            sequence,
            payload,
        },
        after,
    )
}

impl HeaderBuilder<ICMPEdgeTuple> for IcmpExchange {
    type Info = ICMPPacketInfo;

    open spec fn spec_build(self, symbol: ICMPEdgeTuple, payload: PayloadView, ts: u64) -> (
        ICMPPacketInfoView,
        IcmpExchange,
    ) {
        spec_create_icmp_header(self, symbol, payload, ts)
    }

    fn build(self, symbol: &ICMPEdgeTuple, payload: Payload, ts: u64) -> (built: (
        ICMPPacketInfo,
        IcmpExchange,
    )) {
        create_icmp_header(self, symbol, payload, ts)
    }
}

} // verus!
