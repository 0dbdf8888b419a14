//! The definition of a model as it is read from a model file: plain data,
//! not yet checked, with the names and numbers the file holds.

use crate::structs::PacketDirection;
use crate::structs::PayloadType;
use vstd::prelude::*;
use vstd::string::StringSliceAdditionalSpecFns;
use vstd::utf8::encode_utf8;

verus! {

/// The longest payload a packet can carry, in bytes.
pub const MAX_PAYLOAD_LEN: usize = 65_535;

/// Whether a text reads exactly as `literal`.
pub fn text_is(text: &String, literal: &str) -> (same: bool)
    ensures
        same == (text@ == literal@),
{
    let wanted: String = literal.to_owned();
    *text == wanted
}

/// The protocol a model speaks.
#[derive(Debug, Clone, Copy, PartialEq, Eq, Structural)]
pub enum JsonProtocol {
    TCP,
    UDP,
    ICMP,
}

impl JsonProtocol {
    /// The protocol that a tag names, if any.
    pub open spec fn spec_from_tag(tag: Seq<char>) -> Option<JsonProtocol> {
        if tag == "TCP"@ {
            Some(JsonProtocol::TCP)
        } else if tag == "UDP"@ {
            Some(JsonProtocol::UDP)
        } else if tag == "ICMP"@ {
            Some(JsonProtocol::ICMP)
        } else {
            None
        }
    }

    /// Reads a protocol tag; the tags are `TCP`, `UDP` and `ICMP`.
    pub fn from_tag(tag: &String) -> (protocol: Option<JsonProtocol>)
        ensures
            protocol == Self::spec_from_tag(tag@),
    {
        if text_is(tag, "TCP") {
            Some(JsonProtocol::TCP)
        } else if text_is(tag, "UDP") {
            Some(JsonProtocol::UDP)
        } else if text_is(tag, "ICMP") {
            Some(JsonProtocol::ICMP)
        } else {
            None
        }
    }
}

/// How a symbol's payload is described: a kind and the parameters of that
/// kind. The lists of the other kinds stay empty.
#[derive(Debug)]
pub struct JsonPayload {
    /// `empty`, `text`, `replay` or `random`.
    pub kind: String,
    pub texts: Vec<String>,
    pub blobs: Vec<Vec<u8>>,
    pub lengths: Vec<usize>,
}

/// The description of an edge symbol, the same for every protocol. Each
/// protocol reads the fields it knows and refuses the others.
#[derive(Debug)]
pub struct JsonSymbol {
    /// `forward` or `backward`.
    pub direction: String,
    /// Names of the TCP flags that are set.
    pub flags: Vec<String>,
    /// ICMP message type.
    pub icmp_type: Option<u8>,
    /// ICMP message code.
    pub icmp_code: Option<u8>,
    pub payload: JsonPayload,
}

/// The description of a timing model: a distribution family and its
/// parameters, in nanoseconds.
#[derive(Debug)]
pub struct JsonTiming {
    /// `fixed` or `uniform`.
    pub family: String,
    pub params: Vec<u64>,
}

#[derive(Debug)]
pub struct JsonEdge {
    /// Identifier of the state the edge leaves.
    pub src: u32,
    /// Identifier of the state the edge enters.
    pub dst: u32,
    pub symbol: JsonSymbol,
    pub weight: u32,
    pub timing: JsonTiming,
}

/// One model file.
#[derive(Debug)]
pub struct JsonAutomaton {
    pub protocol: JsonProtocol,
    /// The identifiers of the states.
    pub states: Vec<u32>,
    pub initial_state: u32,
    pub edges: Vec<JsonEdge>,
    /// The largest number of packets one run may produce, if the model
    /// sets one.
    pub max_steps: Option<u32>,
}

/// Why a symbol description was refused.
#[derive(Debug, Clone, Copy, PartialEq, Eq, Structural)]
pub enum SymbolError {
    /// The direction is neither `forward` nor `backward`.
    UnknownDirection,
    /// A flag name is not one of the protocol's.
    UnknownFlag,
    /// A flag is named twice.
    DuplicateFlag,
    /// The flags cannot stand together in one segment.
    InvalidFlagCombination,
    /// A field is set that the protocol does not have.
    UnexpectedField,
    /// A field is absent that the protocol needs.
    MissingField,
    /// The payload kind is not known.
    UnknownPayloadKind,
    /// The payload's parameters do not fit its kind.
    InconsistentPayload,
    /// A payload alternative is longer than a packet can carry.
    PayloadTooLong,
}

/// The direction that a name stands for, if any.
pub open spec fn spec_parse_direction(name: Seq<char>) -> Option<PacketDirection> {
    if name == "forward"@ {
        Some(PacketDirection::Forward)
    } else if name == "backward"@ {
        Some(PacketDirection::Backward)
    } else {
        None
    }
}

pub fn parse_direction(name: &String) -> (direction: Option<PacketDirection>)
    ensures
        direction == spec_parse_direction(name@),
{
    if text_is(name, "forward") {
        Some(PacketDirection::Forward)
    } else if text_is(name, "backward") {
        Some(PacketDirection::Backward)
    } else {
        None
    }
}

/// Whether every text fits in a packet when sent as UTF-8.
pub open spec fn texts_fit(texts: Seq<String>) -> bool {
    forall|i: int| 0 <= i < texts.len() ==> encode_utf8(#[trigger] texts[i]@).len() <= MAX_PAYLOAD_LEN
}

/// Whether every byte string fits in a packet.
pub open spec fn blobs_fit(blobs: Seq<Vec<u8>>) -> bool {
    forall|i: int| 0 <= i < blobs.len() ==> (#[trigger] blobs[i])@.len() <= MAX_PAYLOAD_LEN
}

/// Whether every length fits in a packet.
pub open spec fn lengths_fit(lengths: Seq<usize>) -> bool {
    forall|i: int| 0 <= i < lengths.len() ==> #[trigger] lengths[i] <= MAX_PAYLOAD_LEN
}

/// The payload model that a description stands for, or the reason why it
/// stands for none. A kind takes its own list, not empty, and leaves the
/// other lists empty; no alternative is longer than `MAX_PAYLOAD_LEN`.
pub open spec fn spec_parse_payload(payload: JsonPayload) -> Result<PayloadType, SymbolError> {
    let texts = payload.texts@.len();
    let blobs = payload.blobs@.len();
    let lengths = payload.lengths@.len();
    if payload.kind@ == "empty"@ {
        if texts == 0 && blobs == 0 && lengths == 0 {
            Ok(PayloadType::Empty)
        } else {
            Err(SymbolError::InconsistentPayload)
        }
    } else if payload.kind@ == "text"@ {
        if texts == 0 || blobs != 0 || lengths != 0 {
            Err(SymbolError::InconsistentPayload)
        } else if !texts_fit(payload.texts@) {
            Err(SymbolError::PayloadTooLong)
        } else {
            Ok(PayloadType::Text(payload.texts))
        }
    } else if payload.kind@ == "replay"@ {
        if blobs == 0 || texts != 0 || lengths != 0 {
            Err(SymbolError::InconsistentPayload)
        } else if !blobs_fit(payload.blobs@) {
            Err(SymbolError::PayloadTooLong)
        } else {
            Ok(PayloadType::Replay(payload.blobs))
        }
    } else if payload.kind@ == "random"@ {
        if lengths == 0 || texts != 0 || blobs != 0 {
            Err(SymbolError::InconsistentPayload)
        } else if !lengths_fit(payload.lengths@) {
            Err(SymbolError::PayloadTooLong)
        } else {
            Ok(PayloadType::Random(payload.lengths))
        }
    } else {
        Err(SymbolError::UnknownPayloadKind)
    }
}

fn check_texts(texts: &Vec<String>) -> (fit: bool)
    ensures
        fit == texts_fit(texts@),
{
    let mut i: usize = 0;
    while i < texts.len()
        invariant
            i <= texts.len(),
            forall|j: int| 0 <= j < i ==> encode_utf8(#[trigger] texts@[j]@).len() <= MAX_PAYLOAD_LEN,
        decreases texts.len() - i,
    {
        let bytes: &[u8] = texts[i].as_str().as_bytes();
        if bytes.len() > MAX_PAYLOAD_LEN {
            return false;
        }
        i = i + 1;
    }
    true
}

fn check_blobs(blobs: &Vec<Vec<u8>>) -> (fit: bool)
    ensures
        fit == blobs_fit(blobs@),
{
    let mut i: usize = 0;
    while i < blobs.len()
        invariant
            i <= blobs.len(),
            forall|j: int| 0 <= j < i ==> (#[trigger] blobs@[j])@.len() <= MAX_PAYLOAD_LEN,
        decreases blobs.len() - i,
    {
        if blobs[i].len() > MAX_PAYLOAD_LEN {
            return false;
        }
        i = i + 1;
    }
    true
}

fn check_lengths(lengths: &Vec<usize>) -> (fit: bool)
    ensures
        fit == lengths_fit(lengths@),
{
    let mut i: usize = 0;
    while i < lengths.len()
        invariant
            i <= lengths.len(),
            forall|j: int| 0 <= j < i ==> #[trigger] lengths@[j] <= MAX_PAYLOAD_LEN,
        decreases lengths.len() - i,
    {
        if lengths[i] > MAX_PAYLOAD_LEN {
            return false;
        }
        i = i + 1;
    }
    true
}

/// Checks a payload description and turns it into a payload model.
pub fn parse_payload(payload: JsonPayload) -> (parsed: Result<PayloadType, SymbolError>)
    ensures
        parsed == spec_parse_payload(payload),
        parsed matches Ok(model) ==> model.wf(),
{
    let texts: usize = payload.texts.len();
    let blobs: usize = payload.blobs.len();
    let lengths: usize = payload.lengths.len();
    if text_is(&payload.kind, "empty") {
        if texts == 0 && blobs == 0 && lengths == 0 {
            Ok(PayloadType::Empty)
        } else {
            Err(SymbolError::InconsistentPayload)
        }
    } else if text_is(&payload.kind, "text") {
        if texts == 0 || blobs != 0 || lengths != 0 {
            Err(SymbolError::InconsistentPayload)
        } else if !check_texts(&payload.texts) {
            Err(SymbolError::PayloadTooLong)
        } else {
            Ok(PayloadType::Text(payload.texts))
        }
    } else if text_is(&payload.kind, "replay") {
        if blobs == 0 || texts != 0 || lengths != 0 {
            Err(SymbolError::InconsistentPayload)
        } else if !check_blobs(&payload.blobs) {
            Err(SymbolError::PayloadTooLong)
        } else {
            Ok(PayloadType::Replay(payload.blobs))
        }
    } else if text_is(&payload.kind, "random") {
        if lengths == 0 || texts != 0 || blobs != 0 {
            Err(SymbolError::InconsistentPayload)
        } else if !check_lengths(&payload.lengths) {
            Err(SymbolError::PayloadTooLong)
        } else {
            Ok(PayloadType::Random(payload.lengths))
        }
    } else {
        Err(SymbolError::UnknownPayloadKind)
    }
}

/// Describes a payload model. For a sound model, reading the description
/// gives the model back.
pub fn describe_payload(model: PayloadType) -> (payload: JsonPayload)
    ensures
        model.wf() ==> spec_parse_payload(payload) == Ok::<PayloadType, SymbolError>(model),
{
    proof {
        lemma_payload_kinds_differ();
    }
    match model {
        PayloadType::Empty => JsonPayload {
            kind: "empty".to_owned(),
            texts: Vec::new(),
            blobs: Vec::new(),
            lengths: Vec::new(),
        },
        PayloadType::Text(texts) => JsonPayload {
            kind: "text".to_owned(),
            texts,
            blobs: Vec::new(),
            lengths: Vec::new(),
        },
        PayloadType::Replay(blobs) => JsonPayload {
            kind: "replay".to_owned(),
            texts: Vec::new(),
            blobs,
            lengths: Vec::new(),
        },
        PayloadType::Random(lengths) => JsonPayload {
            kind: "random".to_owned(),
            texts: Vec::new(),
            blobs: Vec::new(),
            lengths,
        },
    }
}

/// The names of the payload kinds differ from one another.
pub proof fn lemma_payload_kinds_differ()
    ensures
        "empty"@ != "text"@,
        "empty"@ != "replay"@,
        "empty"@ != "random"@,
        "text"@ != "replay"@,
        "text"@ != "random"@,
        "replay"@ != "random"@,
{
    reveal_strlit("empty");
    reveal_strlit("text");
    reveal_strlit("replay");
    reveal_strlit("random");
    assert("empty"@.len() == 5);
    assert("text"@.len() == 4);
    assert("replay"@.len() == 6);
    assert("random"@.len() == 6);
    assert("replay"@[1] == 'e');
    assert("random"@[1] == 'a');
}

/// The names of the directions differ.
pub proof fn lemma_directions_differ()
    ensures
        "forward"@ != "backward"@,
{
    reveal_strlit("forward");
    reveal_strlit("backward");
    assert("forward"@.len() == 7);
    assert("backward"@.len() == 8);
}

/// The name of a direction.
pub fn describe_direction(direction: PacketDirection) -> (name: String)
    ensures
        spec_parse_direction(name@) == Some(direction),
{
    proof {
        lemma_directions_differ();
    }
    match direction {
        PacketDirection::Forward => "forward".to_owned(),
        PacketDirection::Backward => "backward".to_owned(),
    }
}

} // verus!
