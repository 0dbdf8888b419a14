//! The TCP adapter: symbols that carry a flag set, and packet descriptions
//! with sequence and acknowledgment numbers.

use crate::model::describe_direction;
use crate::model::describe_payload;
use crate::model::parse_direction;
use crate::model::parse_payload;
use crate::model::spec_parse_direction;
use crate::model::spec_parse_payload;
use crate::model::text_is;
use crate::model::JsonProtocol;
use crate::model::JsonSymbol;
use crate::model::SymbolError;
use crate::sampling::HeaderBuilder;
use crate::structs::EdgeType;
use crate::structs::NoiseType;
use crate::structs::PacketDirection;
use crate::structs::Payload;
use crate::structs::PayloadType;
use crate::structs::PayloadView;
use crate::structs::Protocol;
use vstd::prelude::*;

verus! {

/// The control flags of a TCP segment.
#[derive(Debug, Clone, Copy, PartialEq, Eq, Structural)]
pub struct TcpFlags {
    pub syn: bool,
    pub ack: bool,
    pub fin: bool,
    pub rst: bool,
    pub psh: bool,
    pub urg: bool,
}

impl TcpFlags {
    /// Whether the flags can stand together in one segment: one of SYN,
    /// ACK, FIN and RST is set, and SYN stands with neither FIN nor RST.
    pub open spec fn coherent(self) -> bool {
        &&& self.syn || self.ack || self.fin || self.rst
        &&& !(self.syn && self.fin)
        &&& !(self.syn && self.rst)
    }

    /// The sequence numbers that a segment with these flags uses up besides
    /// its payload: one for SYN and one for FIN.
    pub open spec fn phantom_bytes(self) -> int {
        (if self.syn {
            1int
        } else {
            0
        }) + (if self.fin {
            1int
        } else {
            0
        })
    }

    pub fn is_coherent(&self) -> (coherent: bool)
        ensures
            coherent == self.coherent(),
    {
        (self.syn || self.ack || self.fin || self.rst) && !(self.syn && self.fin) && !(self.syn
            && self.rst)
    }
}

/// The symbol of a TCP edge: the segment's flags, its direction and how its
/// payload is produced.
#[derive(Debug)]
pub struct TCPEdgeTuple {
    pub flags: TcpFlags,
    pub direction: PacketDirection,
    pub payload_type: PayloadType,
}

/// Whether a name is the name of a TCP flag.
pub open spec fn is_flag_name(name: Seq<char>) -> bool {
    name == "SYN"@ || name == "ACK"@ || name == "FIN"@ || name == "RST"@ || name == "PSH"@ || name
        == "URG"@
}

/// Whether one of the flag names is `name`.
pub open spec fn flag_named(flags: Seq<String>, name: Seq<char>) -> bool {
    exists|i: int| 0 <= i < flags.len() && (#[trigger] flags[i])@ == name
}

/// Whether every name is the name of a TCP flag.
pub open spec fn flags_known(flags: Seq<String>) -> bool {
    forall|i: int| 0 <= i < flags.len() ==> is_flag_name((#[trigger] flags[i])@)
}

/// Whether no name occurs twice.
pub open spec fn flags_distinct(flags: Seq<String>) -> bool {
    forall|i: int, j: int|
        0 <= i < j < flags.len() ==> (#[trigger] flags[i])@ != (#[trigger] flags[j])@
}

/// The flag set that a list of flag names stands for.
pub open spec fn spec_flags(flags: Seq<String>) -> TcpFlags {
    TcpFlags {
        syn: flag_named(flags, "SYN"@),
        ack: flag_named(flags, "ACK"@),
        fin: flag_named(flags, "FIN"@),
        rst: flag_named(flags, "RST"@),
        psh: flag_named(flags, "PSH"@),
        urg: flag_named(flags, "URG"@),
    }
}

/// The TCP symbol that a description stands for, or the reason why it
/// stands for none. The direction is checked first, then the flag names,
/// then their combination, then that no ICMP field is set, then the
/// payload.
pub open spec fn spec_parse_tcp_symbol(symbol: JsonSymbol) -> Result<TCPEdgeTuple, SymbolError> {
    match spec_parse_direction(symbol.direction@) {
        None => Err(SymbolError::UnknownDirection),
        Some(direction) => if !flags_known(symbol.flags@) {
            Err(SymbolError::UnknownFlag)
        } else if !flags_distinct(symbol.flags@) {
            Err(SymbolError::DuplicateFlag)
        } else if !spec_flags(symbol.flags@).coherent() {
            Err(SymbolError::InvalidFlagCombination)
        } else if symbol.icmp_type is Some || symbol.icmp_code is Some {
            Err(SymbolError::UnexpectedField)
        } else {
            match spec_parse_payload(symbol.payload) {
                Err(cause) => Err(cause),
                Ok(payload_type) => Ok(
                    TCPEdgeTuple { flags: spec_flags(symbol.flags@), direction, payload_type },
                ),
            }
        }
    }
}

fn all_flags_known(flags: &Vec<String>) -> (known: bool)
    ensures
        known == flags_known(flags@),
{
    let mut i: usize = 0;
    while i < flags.len()
        invariant
            i <= flags.len(),
            forall|j: int| 0 <= j < i ==> is_flag_name((#[trigger] flags@[j])@),
        decreases flags.len() - i,
    {
        let name: &String = &flags[i];
        let known: bool = text_is(name, "SYN") || text_is(name, "ACK") || text_is(name, "FIN")
            || text_is(name, "RST") || text_is(name, "PSH") || text_is(name, "URG");
        if !known {
            return false;
        }
        i = i + 1;
    }
    true
}

fn all_flags_distinct(flags: &Vec<String>) -> (distinct: bool)
    ensures
        distinct == flags_distinct(flags@),
{
    let mut j: usize = 0;
    while j < flags.len()
        invariant
            j <= flags.len(),
            forall|a: int, b: int|
                0 <= a < b < j ==> (#[trigger] flags@[a])@ != (#[trigger] flags@[b])@,
        decreases flags.len() - j,
    {
        let mut i: usize = 0;
        while i < j
            invariant
                i <= j < flags.len(),
                forall|a: int| 0 <= a < i ==> (#[trigger] flags@[a])@ != flags@[j as int]@,
            decreases j - i,
        {
            if flags[i] == flags[j] {
                return false;
            }
            i = i + 1;
        }
        j = j + 1;
    }
    true
}

fn has_flag(flags: &Vec<String>, name: &str) -> (found: bool)
    ensures
        found == flag_named(flags@, name@),
{
    let mut i: usize = 0;
    while i < flags.len()
        invariant
            i <= flags.len(),
            forall|j: int| 0 <= j < i ==> (#[trigger] flags@[j])@ != name@,
        decreases flags.len() - i,
    {
        if text_is(&flags[i], name) {
            return true;
        }
        i = i + 1;
    }
    false
}

/// Checks a symbol description and turns it into a TCP symbol.
pub fn parse_tcp_symbol(symbol: JsonSymbol) -> (parsed: Result<TCPEdgeTuple, SymbolError>)
    ensures
        parsed == spec_parse_tcp_symbol(symbol),
{
    let direction: PacketDirection = match parse_direction(&symbol.direction) {
        Some(direction) => direction,
        None => {
            return Err(SymbolError::UnknownDirection);
        },
    };
    if !all_flags_known(&symbol.flags) {
        return Err(SymbolError::UnknownFlag);
    }
    if !all_flags_distinct(&symbol.flags) {
        return Err(SymbolError::DuplicateFlag);
    }
    let flags: TcpFlags = TcpFlags {
        syn: has_flag(&symbol.flags, "SYN"),
        ack: has_flag(&symbol.flags, "ACK"),
        fin: has_flag(&symbol.flags, "FIN"),
        rst: has_flag(&symbol.flags, "RST"),
        psh: has_flag(&symbol.flags, "PSH"),
        urg: has_flag(&symbol.flags, "URG"),
    };
    if !flags.is_coherent() {
        return Err(SymbolError::InvalidFlagCombination);
    }
    if symbol.icmp_type.is_some() || symbol.icmp_code.is_some() {
        return Err(SymbolError::UnexpectedField);
    }
    match parse_payload(symbol.payload) {
        Err(cause) => Err(cause),
        Ok(payload_type) => Ok(TCPEdgeTuple { flags, direction, payload_type }),
    }
}

/// The name of flag number `j`, in the order SYN, ACK, FIN, RST, PSH, URG.
pub open spec fn flag_name(j: int) -> Seq<char> {
    if j == 0 {
        "SYN"@
    } else if j == 1 {
        "ACK"@
    } else if j == 2 {
        "FIN"@
    } else if j == 3 {
        "RST"@
    } else if j == 4 {
        "PSH"@
    } else {
        "URG"@
    }
}

/// Whether flag number `j` is set.
pub open spec fn flag_set(flags: TcpFlags, j: int) -> bool {
    if j == 0 {
        flags.syn
    } else if j == 1 {
        flags.ack
    } else if j == 2 {
        flags.fin
    } else if j == 3 {
        flags.rst
    } else if j == 4 {
        flags.psh
    } else {
        flags.urg
    }
}

/// Whether `names` names exactly those of the first `k` flags that are
/// set, each once.
pub open spec fn names_first(names: Seq<String>, flags: TcpFlags, k: int) -> bool {
    &&& flags_known(names)
    &&& flags_distinct(names)
    &&& forall|j: int|
        0 <= j < 6 ==> (#[trigger] flag_named(names, flag_name(j)) == (j < k && flag_set(flags, j)))
}

/// The six flag names differ from one another.
pub proof fn lemma_flag_names_differ()
    ensures
        forall|i: int, j: int|
            0 <= i < 6 && 0 <= j < 6 && i != j ==> #[trigger] flag_name(i) != #[trigger] flag_name(
                j,
            ),
{
    reveal_strlit("SYN");
    reveal_strlit("ACK");
    reveal_strlit("FIN");
    reveal_strlit("RST");
    reveal_strlit("PSH");
    reveal_strlit("URG");
    assert("SYN"@[0] == 'S');
    assert("ACK"@[0] == 'A');
    assert("FIN"@[0] == 'F');
    assert("RST"@[0] == 'R');
    assert("PSH"@[0] == 'P');
    assert("URG"@[0] == 'U');
}

/// Adding the name of flag `k`, where the flag is set, to the names of the
/// flags before it gives the names of the flags up to it.
proof fn lemma_name_next(before: Seq<String>, after: Seq<String>, flags: TcpFlags, k: int)
    requires
        0 <= k < 6,
        names_first(before, flags, k),
        flag_set(flags, k) ==> after.len() == before.len() + 1 && after.drop_last() == before
            && after.last()@ == flag_name(k),
        !flag_set(flags, k) ==> after == before,
    ensures
        names_first(after, flags, k + 1),
{
    lemma_flag_names_differ();
    if flag_set(flags, k) {
        let n = before.len() as int;
        assert(!flag_named(before, flag_name(k)));
        assert forall|i: int| 0 <= i < after.len() implies is_flag_name(
            (#[trigger] after[i])@,
        ) by {
            if i < n {
                assert(after[i] == before[i]);
            }
        }
        assert forall|a: int, b: int| 0 <= a < b < after.len() implies (#[trigger] after[a])@
            != (#[trigger] after[b])@ by {
            assert(after[a] == before[a]);
            if b < n {
                assert(after[b] == before[b]);
            }
        }
        assert forall|j: int| 0 <= j < 6 implies (#[trigger] flag_named(after, flag_name(j)) == (j
            < k + 1 && flag_set(flags, j))) by {
            if flag_named(before, flag_name(j)) {
                let i = choose|i: int| 0 <= i < before.len() && (#[trigger] before[i])@
                    == flag_name(j);
                assert(after[i] == before[i]);
            }
            if j == k {
                assert(after[n]@ == flag_name(j));
            }
            if flag_named(after, flag_name(j)) {
                let i = choose|i: int| 0 <= i < after.len() && (#[trigger] after[i])@
                    == flag_name(j);
                if i < n {
                    assert(after[i] == before[i]);
                }
            }
        }
    }
}

fn name_flag(names: &mut Vec<String>, set: bool, name: &str)
    ensures
        set ==> final(names)@.len() == old(names)@.len() + 1 && final(names)@.drop_last() == old(
            names,
        )@ && final(names)@.last()@ == name@,
        !set ==> final(names)@ == old(names)@,
{
    if set {
        names.push(name.to_owned());
        proof {
            assert(names@.drop_last() =~= old(names)@);
        }
    }
}

/// Describes a TCP symbol. For a symbol with coherent flags and a sound
/// payload model, reading the description gives the symbol back.
pub fn describe_tcp_symbol(symbol: TCPEdgeTuple) -> (description: JsonSymbol)
    ensures
        symbol.flags.coherent() && symbol.payload_type.wf() ==> spec_parse_tcp_symbol(description)
            == Ok::<TCPEdgeTuple, SymbolError>(symbol),
{
    let set: TcpFlags = symbol.flags;
    let mut names: Vec<String> = Vec::new();
    assert(names_first(names@, set, 0));
    let ghost before: Seq<String> = names@;
    name_flag(&mut names, set.syn, "SYN");
    proof {
        lemma_name_next(before, names@, set, 0);
    }
    let ghost before: Seq<String> = names@;
    name_flag(&mut names, set.ack, "ACK");
    proof {
        lemma_name_next(before, names@, set, 1);
    }
    let ghost before: Seq<String> = names@;
    name_flag(&mut names, set.fin, "FIN");
    proof {
        lemma_name_next(before, names@, set, 2);
    }
    let ghost before: Seq<String> = names@;
    name_flag(&mut names, set.rst, "RST");
    proof {
        lemma_name_next(before, names@, set, 3);
    }
    let ghost before: Seq<String> = names@;
    name_flag(&mut names, set.psh, "PSH");
    proof {
        lemma_name_next(before, names@, set, 4);
    }
    let ghost before: Seq<String> = names@;
    name_flag(&mut names, set.urg, "URG");
    proof {
        lemma_name_next(before, names@, set, 5);
        assert(flag_named(names@, flag_name(0)) == set.syn);
        assert(flag_named(names@, flag_name(1)) == set.ack);
        assert(flag_named(names@, flag_name(2)) == set.fin);
        assert(flag_named(names@, flag_name(3)) == set.rst);
        assert(flag_named(names@, flag_name(4)) == set.psh);
        assert(flag_named(names@, flag_name(5)) == set.urg);
        assert(spec_flags(names@) == set);
    }
    JsonSymbol {
        direction: describe_direction(symbol.direction),
        flags: names,
        icmp_type: None,
        icmp_code: None,
        payload: describe_payload(symbol.payload_type),
    }
}

impl EdgeType for TCPEdgeTuple {
    open spec fn payload_type(&self) -> PayloadType {
        self.payload_type
    }

    open spec fn direction(&self) -> PacketDirection {
        self.direction
    }

    open spec fn spec_parse(symbol: JsonSymbol) -> Result<Self, SymbolError> {
        spec_parse_tcp_symbol(symbol)
    }

    open spec fn spec_protocol() -> JsonProtocol {
        JsonProtocol::TCP
    }

    open spec fn wf(&self) -> bool {
        self.flags.coherent() && self.payload_type.wf()
    }

    fn get_payload_type(&self) -> (r: &PayloadType) {
        &self.payload_type
    }

    fn get_direction(&self) -> (r: PacketDirection) {
        self.direction
    }

    fn protocol() -> (protocol: JsonProtocol) {
        JsonProtocol::TCP
    }

    fn describe(self) -> (symbol: JsonSymbol) {
        describe_tcp_symbol(self)
    }

    fn parse(symbol: JsonSymbol) -> (parsed: Result<Self, SymbolError>) {
        parse_tcp_symbol(symbol)
    }
}

/// The description of one TCP segment.
#[derive(Debug, PartialEq, Eq)]
pub struct TCPPacketInfo {
    pub noise: NoiseType,
    pub direction: PacketDirection,
    /// The instant of emission, in nanoseconds.
    pub ts: u64,
    pub flags: TcpFlags,
    pub seq: u32,
    /// The acknowledgment number; zero where ACK is not set.
    pub ack: u32,
    pub payload: Payload,
}

/// The mathematical content of a [`TCPPacketInfo`].
pub struct TCPPacketInfoView {
    pub noise: NoiseType,
    pub direction: PacketDirection,
    pub ts: u64,
    pub flags: TcpFlags,
    pub seq: u32,
    pub ack: u32,
    pub payload: PayloadView,
}

impl View for TCPPacketInfo {
    type V = TCPPacketInfoView;

    open spec fn view(&self) -> TCPPacketInfoView {
        TCPPacketInfoView {
            noise: self.noise,
            direction: self.direction,
            ts: self.ts,
            flags: self.flags,
            seq: self.seq,
            ack: self.ack,
            payload: self.payload@,
        }
    }
}

impl Protocol for TCPPacketInfo {
    open spec fn noise_type(&self) -> NoiseType {
        self.noise
    }

    open spec fn direction(&self) -> PacketDirection {
        self.direction
    }

    open spec fn ts(&self) -> u64 {
        self.ts
    }

    open spec fn payload_size(&self) -> nat {
        self.payload@.size()
    }

    fn get_noise_type(&self) -> (r: NoiseType) {
        self.noise
    }

    fn get_direction(&self) -> (r: PacketDirection) {
        self.direction
    }

    fn get_ts(&self) -> (r: u64) {
        self.ts
    }

    fn get_payload_size(&self) -> (r: usize) {
        self.payload.get_payload_size()
    }
}

/// The sequence numbers of one connection: for each side, the number that
/// its next segment carries.
#[derive(Debug, Clone, Copy, PartialEq, Eq, Structural)]
pub struct TcpSession {
    pub client_next: u32,
    pub server_next: u32,
}

/// A sequence number `used` places after `from`; sequence numbers count
/// modulo 2^32.
pub open spec fn spec_seq_after(from: u32, used: int) -> u32 {
    ((from + used) % 0x1_0000_0000) as u32
}

/// The segment for `symbol` at instant `ts`, and the session after it. The
/// sender's next sequence number is the segment's; it then moves on by the
/// payload's length, and by one each for SYN and FIN. Where ACK is set the
/// segment acknowledges the other side's next sequence number.
pub open spec fn spec_create_tcp_header(
    session: TcpSession,
    symbol: TCPEdgeTuple,
    payload: PayloadView,
    ts: u64,
) -> (TCPPacketInfoView, TcpSession) {
    let used = payload.size() + symbol.flags.phantom_bytes();
    let (own, other) = match symbol.direction {
        PacketDirection::Forward => (session.client_next, session.server_next),
        PacketDirection::Backward => (session.server_next, session.client_next),
    };
    let info = TCPPacketInfoView {
        noise: NoiseType::Clean,
        direction: symbol.direction,
        ts,
        flags: symbol.flags,
        seq: own,
        ack: if symbol.flags.ack {
            other
        } else {
            0
        },
        payload,
    };
    let after = match symbol.direction {
        PacketDirection::Forward => TcpSession {
            client_next: spec_seq_after(own, used),
            server_next: session.server_next,
        },
        PacketDirection::Backward => TcpSession {
            client_next: session.client_next,
            server_next: spec_seq_after(own, used),
        },
    };
    (info, after)
}

impl TcpSession {
    /// A connection on which nothing was sent yet: both sides start at the
    /// given initial sequence numbers.
    pub fn new(client_isn: u32, server_isn: u32) -> (session: TcpSession)
        ensures
            session == (TcpSession { client_next: client_isn, server_next: server_isn }),
    {
        TcpSession { client_next: client_isn, server_next: server_isn }
    }
}

fn seq_after(from: u32, payload: usize, flags: &TcpFlags) -> (next: u32)
    ensures
        next == spec_seq_after(from, payload + flags.phantom_bytes()),
{
    let syn: u128 = if flags.syn {
        1
    } else {
        0
    };
    let fin: u128 = if flags.fin {
        1
    } else {
        0
    };
    let sum: u128 = from as u128 + payload as u128 + syn + fin;
    (sum % 0x1_0000_0000u128) as u32
}

/// Describes the segment that a TCP edge emits at instant `ts`, and moves
/// the session on.
pub fn create_tcp_header(
    session: TcpSession,
    symbol: &TCPEdgeTuple,
    payload: Payload,
    ts: u64,
) -> (built: (TCPPacketInfo, TcpSession))
    ensures
        (built.0@, built.1) == spec_create_tcp_header(session, *symbol, payload@, ts),
        built.0.ts == ts,
        built.0.payload == payload,
        built.0.direction == symbol.direction,
{
    let size: usize = payload.get_payload_size();
    match symbol.direction {
        PacketDirection::Forward => {
            let info = TCPPacketInfo {
                noise: NoiseType::Clean,
                direction: PacketDirection::Forward,
                ts,
                flags: symbol.flags,
                seq: session.client_next,
                ack: if symbol.flags.ack {
                    session.server_next
                } else {
                    0
                },
                payload,
            };
            let after = TcpSession {
                client_next: seq_after(session.client_next, size, &symbol.flags),
                server_next: session.server_next,
            };
            (info, after)
        },
        PacketDirection::Backward => {
            let info = TCPPacketInfo {
                noise: NoiseType::Clean,
                direction: PacketDirection::Backward,
                ts,
                flags: symbol.flags,
                seq: session.server_next,
                ack: if symbol.flags.ack {
                    session.client_next
                } else {
                    0
                },
                payload,
            };
            let after = TcpSession {
                client_next: session.client_next,
                server_next: seq_after(session.server_next, size, &symbol.flags),
            };
            (info, after)
        },
    }
}

impl HeaderBuilder<TCPEdgeTuple> for TcpSession {
    type Info = TCPPacketInfo;

    open spec fn spec_build(self, symbol: TCPEdgeTuple, payload: PayloadView, ts: u64) -> (
        TCPPacketInfoView,
        TcpSession,
    ) {
        spec_create_tcp_header(self, symbol, payload, ts)
    }

    fn build(self, symbol: &TCPEdgeTuple, payload: Payload, ts: u64) -> (built: (
        TCPPacketInfo,
        TcpSession,
    )) {
        create_tcp_header(self, symbol, payload, ts)
    }
}

} // verus!
