//! Data shared by the stages of the generator: flows, payloads and the
//! capabilities of edge symbols and packet descriptions.

use crate::model::blobs_fit;
use crate::model::lengths_fit;
use crate::model::texts_fit;
use crate::model::JsonProtocol;
use crate::model::JsonSymbol;
use crate::model::SymbolError;
use crate::random::scale;
use crate::random::spec_scale;
use vstd::prelude::*;
use vstd::slice::slice_to_vec;
use vstd::string::StrSliceExecFns;
use vstd::string::StringSliceAdditionalSpecFns;
use vstd::utf8::encode_utf8;

verus! {

/// An IPv4 address, most significant octet first.
#[derive(Debug, Clone, Copy, PartialEq, Eq)]
pub struct Ipv4Address {
    pub octets: [u8; 4],
}

/// One bidirectional flow, tagged by the protocol that carries it.
#[derive(Debug)]
pub enum Flow {
    TCPFlow(FlowData),
    UDPFlow(FlowData),
    ICMPFlow(FlowData),
}

/// Endpoints and aggregate statistics of one bidirectional flow.
///
/// `timestamp` is the instant of the flow's start and `total_duration` its
/// length, both in nanoseconds.
#[derive(Debug)]
pub struct FlowData {
    pub src_ip: Ipv4Address,
    pub dst_ip: Ipv4Address,
    pub src_port: u16,
    pub dst_port: u16,
    pub recorded_ttl_client: u8,
    pub recorded_ttl_server: u8,
    pub initial_ttl_client: u8,
    pub initial_ttl_server: u8,
    pub fwd_packets_count: u32,
    pub bwd_packets_count: u32,
    pub fwd_total_payload_length: u32,
    pub bwd_total_payload_length: u32,
    pub timestamp: u64,
    pub total_duration: u64,
}

/// How an edge produces the payload of its packets.
#[derive(Debug)]
pub enum PayloadType {
    /// No payload.
    Empty,
    /// One of these texts, sent as its UTF-8 bytes.
    Text(Vec<String>),
    /// One of these recorded byte strings, replayed as it is.
    Replay(Vec<Vec<u8>>),
    /// Filler of one of these lengths.
    Random(Vec<usize>),
}

impl PayloadType {
    /// What holds of every payload model that was read from a description:
    /// a model that chooses has something to choose from, and no
    /// alternative is longer than a packet can carry.
    pub open spec fn wf(&self) -> bool {
        match *self {
            PayloadType::Empty => true,
            PayloadType::Text(texts) => texts@.len() > 0 && texts_fit(texts@),
            PayloadType::Replay(blobs) => blobs@.len() > 0 && blobs_fit(blobs@),
            PayloadType::Random(lengths) => lengths@.len() > 0 && lengths_fit(lengths@),
        }
    }

    /// The number of alternatives the model chooses from; zero for `Empty`.
    pub open spec fn choices(&self) -> nat {
        match *self {
            PayloadType::Empty => 0,
            PayloadType::Text(texts) => texts@.len(),
            PayloadType::Replay(blobs) => blobs@.len(),
            PayloadType::Random(lengths) => lengths@.len(),
        }
    }

    /// The payload that alternative `index` stands for.
    pub open spec fn alternative(&self, index: int) -> PayloadView {
        match *self {
            PayloadType::Empty => PayloadView::Empty,
            PayloadType::Text(texts) => PayloadView::Replay(encode_utf8(texts@[index]@)),
            PayloadType::Replay(blobs) => PayloadView::Replay(blobs@[index]@),
            PayloadType::Random(lengths) => PayloadView::Random(lengths@[index]),
        }
    }

    /// The payload that a draw selects: none where the model offers no
    /// alternative, else the alternative to which the draw points.
    pub open spec fn spec_realize(&self, draw: u32) -> PayloadView {
        if self.choices() == 0 {
            PayloadView::Empty
        } else {
            self.alternative(spec_scale(draw, self.choices() as u64) as int)
        }
    }

    /// Chooses the payload of one packet from a draw.
    pub fn realize(&self, draw: u32) -> (payload: Payload)
        ensures
            payload@ == self.spec_realize(draw),
    {
        match self {
            PayloadType::Empty => Payload::Empty,
            PayloadType::Text(texts) => {
                if texts.len() == 0 {
                    Payload::Empty
                } else {
                    let index: usize = scale(draw, texts.len() as u64) as usize;
                    Payload::Replay(texts[index].as_str().as_bytes_vec())
                }
            },
            PayloadType::Replay(blobs) => {
                if blobs.len() == 0 {
                    Payload::Empty
                } else {
                    let index: usize = scale(draw, blobs.len() as u64) as usize;
                    Payload::Replay(slice_to_vec(blobs[index].as_slice()))
                }
            },
            PayloadType::Random(lengths) => {
                if lengths.len() == 0 {
                    Payload::Empty
                } else {
                    let index: usize = scale(draw, lengths.len() as u64) as usize;
                    Payload::Random(lengths[index])
                }
            },
        }
    }
}

/// What the importer and the sampler need of an edge symbol: it is read
/// from a symbol description and can be described again, and it says how
/// its payload is produced.
pub trait EdgeType: Sized {
    /// The payload model of the symbol.
    spec fn payload_type(&self) -> PayloadType;

    /// The direction in which the edge's packet travels.
    spec fn direction(&self) -> PacketDirection;

    /// The protocol whose models carry this kind of symbol.
    spec fn spec_protocol() -> JsonProtocol;

    /// What holds of every symbol that was read from a description.
    spec fn wf(&self) -> bool;

    /// The symbol that a description stands for, or the reason why it
    /// stands for none.
    spec fn spec_parse(symbol: JsonSymbol) -> Result<Self, SymbolError>;

    fn get_payload_type(&self) -> (r: &PayloadType)
        ensures
            *r == self.payload_type(),
    ;

    fn get_direction(&self) -> (r: PacketDirection)
        ensures
            r == self.direction(),
    ;

    fn protocol() -> (protocol: JsonProtocol)
        ensures
            protocol == Self::spec_protocol(),
    ;

    /// Checks a symbol description and turns it into a symbol.
    fn parse(symbol: JsonSymbol) -> (parsed: Result<Self, SymbolError>)
        ensures
            parsed == Self::spec_parse(symbol),
            parsed matches Ok(read) ==> read.wf(),
    ;

    /// Describes the symbol. For a sound symbol, reading the description
    /// gives the symbol back.
    fn describe(self) -> (symbol: JsonSymbol)
        ensures
            self.wf() ==> Self::spec_parse(symbol) == Ok::<Self, SymbolError>(self),
    ;
}

/// How a packet deviates from the clean sequence it was sampled from.
#[derive(Debug, Clone, Copy, PartialEq, Eq, Structural)]
pub enum NoiseType {
    /// The packet is part of the clean sequence.
    Clean,
    Deleted,
    Reemitted,
    Transposed,
    Added,
}

#[derive(Debug, Clone, Copy, PartialEq, Eq, Structural)]
pub enum PacketDirection {
    /// Client to server.
    Forward,
    /// Server to client.
    Backward,
}

/// The payload chosen for one packet.
#[derive(Debug, PartialEq, Eq)]
pub enum Payload {
    Empty,
    Replay(Vec<u8>),
    Random(usize),
}

/// The mathematical content of a [`Payload`].
pub enum PayloadView {
    Empty,
    Replay(Seq<u8>),
    Random(usize),
}

impl PayloadView {
    /// The number of bytes the payload occupies on the wire.
    pub open spec fn size(self) -> nat {
        match self {
            PayloadView::Empty => 0,
            PayloadView::Replay(bytes) => bytes.len(),
            PayloadView::Random(len) => len as nat,
        }
    }
}

impl View for Payload {
    type V = PayloadView;

    open spec fn view(&self) -> PayloadView {
        match *self {
            Payload::Empty => PayloadView::Empty,
            Payload::Replay(bytes) => PayloadView::Replay(bytes@),
            Payload::Random(len) => PayloadView::Random(len),
        }
    }
}

impl Payload {
    pub fn get_payload_size(&self) -> (size: usize)
        ensures
            size == self@.size(),
    {
        match &self {
            Payload::Empty => 0,
            Payload::Replay(l) => l.len(),
            Payload::Random(len) => *len,
        }
    }
}

/// What every packet description exposes, whatever its protocol.
pub trait Protocol: Sized {
    spec fn noise_type(&self) -> NoiseType;

    spec fn direction(&self) -> PacketDirection;

    /// The instant of emission, in nanoseconds.
    spec fn ts(&self) -> u64;

    /// The number of payload bytes.
    spec fn payload_size(&self) -> nat;

    fn get_noise_type(&self) -> (r: NoiseType)
        ensures
            r == self.noise_type(),
    ;

    fn get_direction(&self) -> (r: PacketDirection)
        ensures
            r == self.direction(),
    ;

    fn get_ts(&self) -> (r: u64)
        ensures
            r == self.ts(),
    ;

    fn get_payload_size(&self) -> (r: usize)
        ensures
            r == self.payload_size(),
    ;
}

/// The output of the sampling stage: the packets of one flow, in order.
#[derive(Debug)]
pub struct PacketsIR<T: Protocol> {
    pub packets_info: Vec<T>,
    pub flow: Flow,
}

/// A packet in wire form; the encoding stage fills it in.
pub struct Packet {}

} // verus!
