//! The sampling stage: a library of automata for each protocol and the
//! random source that all samples draw from.

use crate::automaton::spec_import;
use crate::automaton::AutomatonError;
use crate::automaton::AutomatonView;
use crate::automaton::TimedAutomaton;
use crate::constraints::counts_fit;
use crate::constraints::counts_packets;
use crate::constraints::lemma_counted_run;
use crate::constraints::lemma_packets_counted;
use crate::constraints::packet_count_constraint;
use crate::constraints::DirectionMatcher;
use crate::flow::flow_fits;
use crate::flow::packets_in;
use crate::flow::reconstruct_flow;
use crate::flow::spec_reconstruct;
use crate::icmp::ICMPEdgeTuple;
use crate::icmp::ICMPPacketInfo;
use crate::icmp::IcmpExchange;
use crate::model::JsonAutomaton;
use crate::model::JsonProtocol;
use crate::product::can_finish;
use crate::product::lemma_constrained_run_is_accepted;
use crate::product::model_run;
use crate::product::pair;
use crate::product::product_fits;
use crate::product::product_view;
use crate::product::ConstraintAutomaton;
use crate::product::IntersectionError;
use crate::random::RandomSource;
use crate::random::SeededRng;
use crate::sampling::packet_at;
use crate::sampling::packets_in_order;
use crate::sampling::HeaderBuilder;
use crate::sampling::SampleError;
use crate::structs::EdgeType;
use crate::structs::Flow;
use crate::structs::FlowData;
use crate::structs::PacketDirection;
use crate::structs::PacketsIR;
use crate::structs::Protocol;
use crate::tcp::TCPEdgeTuple;
use crate::tcp::TCPPacketInfo;
use crate::tcp::TcpSession;
use crate::udp::UDPEdgeTuple;
use crate::udp::UDPPacketInfo;
use crate::udp::UdpExchange;
use vstd::prelude::*;
use vstd::string::StringSliceAdditionalSpecFns;

verus! {

/// Why a model file gave no automaton.
#[derive(Debug, PartialEq, Eq)]
pub enum ImportError {
    /// The file could not be read; the text says why.
    Io(String),
    /// The file does not hold a model definition; the text says why.
    MalformedJson(String),
    /// The definition names a protocol that is not known; the text is the
    /// name.
    UnknownProtocol(String),
    /// The definition describes no automaton.
    InvalidAutomaton(AutomatonError),
}

/// Why no packets were generated.
#[derive(Debug, Clone, Copy, PartialEq, Eq, Structural)]
pub enum GenerationError {
    /// The library holds no automaton for the protocol.
    NoAutomaton,
    /// The sampled run did not end within the automaton's step bound.
    StepLimitExceeded,
    /// The sampled packets have totals that a flow cannot hold.
    FlowOverflow,
    /// The constraint that the flow puts on the automaton, or its product
    /// with the automaton, is too large to be built.
    ConstraintTooLarge,
    /// No run of the automaton has the packet counts of the flow.
    Unsatisfiable,
}

/// What is known of an automaton that was loaded.
#[derive(Debug, Clone, Copy, PartialEq, Eq, Structural)]
pub struct Loaded {
    /// The protocol whose automata it joined.
    pub protocol: JsonProtocol,
    /// Whether the model sets no step bound, so that its runs are bounded
    /// by `DEFAULT_MAX_STEPS`. This is worth a warning.
    pub default_step_bound: bool,
}

/// One model file of a directory: its name, and its definition or the
/// reason why none could be read from it.
#[derive(Debug)]
pub struct ModelFile {
    pub file_name: String,
    pub content: Result<JsonAutomaton, ImportError>,
}

/// What became of one model file.
#[derive(Debug, PartialEq, Eq)]
pub struct FileOutcome {
    pub file_name: String,
    pub result: Result<Loaded, ImportError>,
}

/// What became of the model files of a directory.
#[derive(Debug, PartialEq, Eq)]
pub struct ImportReport {
    /// The number of automata that were loaded.
    pub loaded: usize,
    /// One outcome for each file, in the order of the files.
    pub outcomes: Vec<FileOutcome>,
}

/// The sampling stage.
#[derive(Debug)]
pub struct Stage2 {
    tcp_automata: Vec<TimedAutomaton<TCPEdgeTuple>>,
    udp_automata: Vec<TimedAutomaton<UDPEdgeTuple>>,
    icmp_automata: Vec<TimedAutomaton<ICMPEdgeTuple>>,
    rng: SeededRng,
}

/// The mathematical content of the sampling stage: the automata of each
/// protocol, in the order in which they were loaded, and the random source.
pub struct Stage2View {
    pub tcp: Seq<AutomatonView<TCPEdgeTuple>>,
    pub udp: Seq<AutomatonView<UDPEdgeTuple>>,
    pub icmp: Seq<AutomatonView<ICMPEdgeTuple>>,
    pub rng: SeededRng,
}

/// The contents of a list of automata.
pub open spec fn views_of<E: EdgeType>(automata: Seq<TimedAutomaton<E>>) -> Seq<AutomatonView<E>> {
    automata.map_values(|automaton: TimedAutomaton<E>| automaton@)
}

impl View for Stage2 {
    type V = Stage2View;

    closed spec fn view(&self) -> Stage2View {
        Stage2View {
            tcp: views_of(self.tcp_automata@),
            udp: views_of(self.udp_automata@),
            icmp: views_of(self.icmp_automata@),
            rng: self.rng,
        }
    }
}

/// The library after a definition was offered to it, and what became of
/// the definition: a faultless definition adds its automaton to the
/// automata of its protocol, after those that are there; a faulty one
/// leaves the library as it is.
pub open spec fn spec_import_into(library: Stage2View, definition: JsonAutomaton) -> (
    Stage2View,
    Result<Loaded, ImportError>,
) {
    let loaded = Loaded {
        protocol: definition.protocol,
        default_step_bound: definition.max_steps is None,
    };
    match definition.protocol {
        JsonProtocol::TCP => match spec_import::<TCPEdgeTuple>(definition) {
            Ok(automaton) => (
                Stage2View { tcp: library.tcp.push(automaton), ..library },
                Ok(loaded),
            ),
            Err(fault) => (library, Err(ImportError::InvalidAutomaton(fault))),
        },
        JsonProtocol::UDP => match spec_import::<UDPEdgeTuple>(definition) {
            Ok(automaton) => (
                Stage2View { udp: library.udp.push(automaton), ..library },
                Ok(loaded),
            ),
            Err(fault) => (library, Err(ImportError::InvalidAutomaton(fault))),
        },
        JsonProtocol::ICMP => match spec_import::<ICMPEdgeTuple>(definition) {
            Ok(automaton) => (
                Stage2View { icmp: library.icmp.push(automaton), ..library },
                Ok(loaded),
            ),
            Err(fault) => (library, Err(ImportError::InvalidAutomaton(fault))),
        },
    }
}

/// The library after a model file was offered to it, and what became of
/// the file. A file without a definition leaves the library as it is, and
/// the reason why it has none is its outcome.
pub open spec fn spec_import_file(library: Stage2View, file: ModelFile) -> (
    Stage2View,
    Result<Loaded, ImportError>,
) {
    match file.content {
        Err(fault) => (library, Err(fault)),
        Ok(definition) => spec_import_into(library, definition),
    }
}

/// The library after the first `upto` files were offered to it, in their
/// order.
pub open spec fn spec_import_all(library: Stage2View, files: Seq<ModelFile>, upto: int)
    -> Stage2View
    decreases upto,
{
    if upto <= 0 {
        library
    } else {
        spec_import_file(spec_import_all(library, files, upto - 1), files[upto - 1]).0
    }
}

/// What became of file number `i` when the files were offered in their
/// order.
pub open spec fn spec_file_outcome(library: Stage2View, files: Seq<ModelFile>, i: int) -> Result<
    Loaded,
    ImportError,
> {
    spec_import_file(spec_import_all(library, files, i), files[i]).1
}

/// The number of files, among the first `upto`, that were loaded.
pub open spec fn loaded_among(outcomes: Seq<FileOutcome>, upto: int) -> int
    decreases upto,
{
    if upto <= 0 {
        0
    } else {
        loaded_among(outcomes, upto - 1) + if outcomes[upto - 1].result is Ok {
            1int
        } else {
            0
        }
    }
}

/// Whether a random source moved on by `draws` draws.
pub open spec fn moved_on(before: SeededRng, after: SeededRng, draws: int) -> bool {
    after == before.skip(draws)
}

/// Whether `packets` are the packets of the run that the source's draws
/// select in `automaton` from instant `start`, described by `builder`.
pub open spec fn sampled<E: EdgeType, B: HeaderBuilder<E>>(
    automaton: AutomatonView<E>,
    rng: SeededRng,
    start: u64,
    builder: B,
    packets: Seq<B::Info>,
) -> bool {
    let run = automaton.sampled_run(rng, start);
    &&& automaton.is_run(rng, start, run)
    &&& run.len() <= automaton.step_bound()
    &&& packets.len() == run.len()
    &&& forall|i: int|
        0 <= i < run.len() ==> (#[trigger] packets[i])@ == packet_at(
            automaton.edges,
            builder,
            run,
            i,
        )
    &&& packets_in_order(packets, start)
}

/// Whether `outcome` is what sampling the first automaton of a protocol
/// gives, and `after` the random source that it leaves.
///
/// Without an automaton nothing is drawn and the outcome is `NoAutomaton`.
/// A run that ends within the step bound takes three draws for each packet
/// and gives its packets; a run that does not end takes three draws for
/// each step that the bound allows and gives `StepLimitExceeded`.
pub open spec fn generated<E: EdgeType, B: HeaderBuilder<E>>(
    automata: Seq<AutomatonView<E>>,
    before: SeededRng,
    after: SeededRng,
    start: u64,
    builder: B,
    outcome: Result<Seq<B::Info>, GenerationError>,
) -> bool {
    if automata.len() == 0 {
        outcome == Err::<Seq<B::Info>, GenerationError>(GenerationError::NoAutomaton) && after
            == before
    } else {
        match outcome {
            Ok(packets) => {
                &&& sampled(automata[0], before, start, builder, packets)
                &&& moved_on(before, after, 3 * (packets.len() as int))
            },
            Err(GenerationError::StepLimitExceeded) => {
                &&& automata[0].overruns(before, start)
                &&& moved_on(before, after, 3 * (automata[0].step_bound() as int))
            },
            Err(_) => false,
        }
    }
}

/// Whether `outcome` is what sampling the first automaton of a protocol
/// and rebuilding the flow of the sampled packets gives. It is what
/// sampling alone gives, with the flow that starts at `start` beside the
/// packets; where the packets' totals fit in no flow the outcome is
/// `FlowOverflow`.
pub open spec fn generated_with_flow<E: EdgeType, B: HeaderBuilder<E>>(
    automata: Seq<AutomatonView<E>>,
    before: SeededRng,
    after: SeededRng,
    start: u64,
    builder: B,
    outcome: Result<(Seq<B::Info>, FlowData), GenerationError>,
) -> bool {
    match outcome {
        Ok((packets, flow)) => {
            &&& generated(automata, before, after, start, builder, Ok(packets))
            &&& flow_fits(packets)
            &&& flow == spec_reconstruct(packets, start)
        },
        Err(GenerationError::FlowOverflow) => exists|packets: Seq<B::Info>|
            {
                &&& #[trigger] generated(automata, before, after, start, builder, Ok(packets))
                &&& !flow_fits(packets)
            },
        Err(error) => generated(
            automata,
            before,
            after,
            start,
            builder,
            Err::<Seq<B::Info>, GenerationError>(error),
        ),
    }
}

/// The bytes of `.json`, the ending of a model file's name.
pub open spec fn model_suffix() -> Seq<u8> {
    seq![0x2eu8, 0x6au8, 0x73u8, 0x6fu8, 0x6eu8]
}

/// Whether a directory entry is a model file: it is no directory, and its
/// name, as UTF-8 bytes, ends in `.json` after at least one other byte.
pub open spec fn spec_is_model_file(name: Seq<u8>, is_dir: bool) -> bool {
    &&& !is_dir
    &&& name.len() > 5
    &&& name.subrange(name.len() - 5, name.len() as int) == model_suffix()
}

/// Whether a directory entry is a model file.
pub fn is_model_file(file_name: &str, is_dir: bool) -> (model: bool)
    ensures
        model == spec_is_model_file(file_name.spec_bytes(), is_dir),
{
    let name: &[u8] = file_name.as_bytes();
    let len: usize = name.len();
    if is_dir || len <= 5 {
        return false;
    }
    let matches: bool = name[len - 5] == 0x2e && name[len - 4] == 0x6a && name[len - 3] == 0x73
        && name[len - 2] == 0x6f && name[len - 1] == 0x6e;
    proof {
        let tail = name@.subrange(len - 5, len as int);
        if matches {
            assert(tail =~= model_suffix());
        } else {
            assert(tail[0] == name@[len - 5]);
            assert(tail[1] == name@[len - 4]);
            assert(tail[2] == name@[len - 3]);
            assert(tail[3] == name@[len - 2]);
            assert(tail[4] == name@[len - 1]);
        }
    }
    matches
}

/// Whether `outcome` is what sampling an automaton under a packet count
/// constraint gives, and `after` the random source that it leaves.
///
/// Where the product of the two is too large, or the constraint accepts no
/// run of the automaton, nothing is drawn and the outcome says which it is.
/// Else the product is sampled as an automaton is: a run that ends within
/// the step bound gives its packets, each the packet of the model edge
/// that its step stands for.
pub open spec fn sampled_under<E: EdgeType, B: HeaderBuilder<E>>(
    model: AutomatonView<E>,
    constraint: ConstraintAutomaton<DirectionMatcher>,
    before: SeededRng,
    after: SeededRng,
    start: u64,
    builder: B,
    outcome: Result<Seq<B::Info>, GenerationError>,
) -> bool {
    let product = product_view(model, constraint);
    if !product_fits(model, constraint) {
        outcome == Err::<Seq<B::Info>, GenerationError>(GenerationError::ConstraintTooLarge)
            && after == before
    } else if !can_finish(
        model,
        constraint,
        pair(model.initial, constraint.initial as int, constraint.width()),
    ) {
        outcome == Err::<Seq<B::Info>, GenerationError>(GenerationError::Unsatisfiable) && after
            == before
    } else {
        match outcome {
            Ok(packets) => {
                let run = product.sampled_run(before, start);
                &&& product.is_run(before, start, run)
                &&& run.len() <= product.step_bound()
                &&& packets.len() == run.len()
                &&& forall|i: int|
                    0 <= i < run.len() ==> (#[trigger] packets[i])@ == packet_at(
                        model.edges,
                        builder,
                        model_run(product, run),
                        i,
                    )
                &&& packets_in_order(packets, start)
                &&& moved_on(before, after, 3 * (packets.len() as int))
            },
            Err(GenerationError::StepLimitExceeded) => {
                &&& product.overruns(before, start)
                &&& moved_on(before, after, 3 * (product.step_bound() as int))
            },
            Err(_) => false,
        }
    }
}

/// Whether `outcome` is what sampling the first automaton of a protocol
/// gives when its runs are narrowed to those with exactly `forward` packets
/// forward and `backward` packets backward.
///
/// Without an automaton the outcome is `NoAutomaton`; where the constraint
/// for these counts is too large to be held it is `ConstraintTooLarge`;
/// else it is what sampling under this constraint gives.
pub open spec fn generated_with_counts<E: EdgeType, B: HeaderBuilder<E>>(
    automata: Seq<AutomatonView<E>>,
    forward: u32,
    backward: u32,
    before: SeededRng,
    after: SeededRng,
    start: u64,
    builder: B,
    outcome: Result<Seq<B::Info>, GenerationError>,
) -> bool {
    if automata.len() == 0 {
        outcome == Err::<Seq<B::Info>, GenerationError>(GenerationError::NoAutomaton) && after
            == before
    } else if !counts_fit(forward as int, backward as int) {
        outcome == Err::<Seq<B::Info>, GenerationError>(GenerationError::ConstraintTooLarge)
            && after == before
    } else {
        exists|constraint: ConstraintAutomaton<DirectionMatcher>|
            {
                &&& constraint.wf()
                &&& counts_packets(constraint, forward as int, backward as int)
                &&& #[trigger] sampled_under(
                    automata[0],
                    constraint,
                    before,
                    after,
                    start,
                    builder,
                    outcome,
                )
            }
    }
}

/// The packets of a run that a packet count constraint accepts are as
/// many, in each direction, as the constraint asks for.
proof fn lemma_sample_counts<E: EdgeType, T: Protocol>(
    model: AutomatonView<E>,
    constraint: ConstraintAutomaton<DirectionMatcher>,
    forward: int,
    backward: int,
    rng: SeededRng,
    start: u64,
    packets: Seq<T>,
)
    requires
        model.wf(),
        constraint.wf(),
        0 <= forward,
        0 <= backward,
        counts_packets(constraint, forward, backward),
        product_fits(model, constraint),
        can_finish(
            model,
            constraint,
            pair(model.initial, constraint.initial as int, constraint.width()),
        ),
        ({
            let product = product_view(model, constraint);
            let run = product.sampled_run(rng, start);
            &&& product.is_run(rng, start, run)
            &&& packets.len() == run.len()
            &&& forall|i: int|
                0 <= i < run.len() ==> (#[trigger] packets[i]).direction()
                    == model.edges[model_run(product, run)[i].edge as int].symbol.direction()
        }),
    ensures
        packets_in(packets, PacketDirection::Forward) == forward,
        packets_in(packets, PacketDirection::Backward) == backward,
{
    let product = product_view(model, constraint);
    let run = product.sampled_run(rng, start);
    let steps = model_run(product, run);
    lemma_constrained_run_is_accepted(model, constraint, rng, start, run);
    lemma_counted_run(model, constraint, forward, backward, rng, start, run);
    lemma_packets_counted(model.edges, steps, packets, PacketDirection::Forward, run.len() as int);
    lemma_packets_counted(
        model.edges,
        steps,
        packets,
        PacketDirection::Backward,
        run.len() as int,
    );
    assert(packets.take(run.len() as int) =~= packets);
}

/// Samples an automaton under a packet count constraint.
fn sample_under<E: EdgeType, B: HeaderBuilder<E>>(
    automaton: &TimedAutomaton<E>,
    constraint: &ConstraintAutomaton<DirectionMatcher>,
    rng: &mut SeededRng,
    start: u64,
    builder: B,
    Ghost(forward): Ghost<int>,
    Ghost(backward): Ghost<int>,
) -> (outcome: Result<Vec<B::Info>, GenerationError>)
    requires
        constraint.wf(),
        0 <= forward,
        0 <= backward,
        counts_packets(*constraint, forward, backward),
    ensures
        sampled_under(
            automaton@,
            *constraint,
            *old(rng),
            *final(rng),
            start,
            builder,
            match outcome {
                Ok(packets) => Ok(packets@),
                Err(error) => Err(error),
            },
        ),
        outcome matches Ok(packets) ==> {
            &&& packets_in(packets@, PacketDirection::Forward) == forward
            &&& packets_in(packets@, PacketDirection::Backward) == backward
        },
{
    let product = match automaton.intersect_automata(constraint) {
        Ok(product) => product,
        Err(IntersectionError::TooLarge) => {
            return Err(GenerationError::ConstraintTooLarge);
        },
        Err(_) => {
            return Err(GenerationError::Unsatisfiable);
        },
    };
    match product.sample(rng, start, builder) {
        Ok(packets) => {
            proof {
                lemma_sample_counts(
                    automaton@,
                    *constraint,
                    forward,
                    backward,
                    *old(rng),
                    start,
                    packets@,
                );
            }
            Ok(packets)
        },
        Err(SampleError::StepLimitExceeded) => Err(GenerationError::StepLimitExceeded),
    }
}

/// Samples the first automaton of a list under the constraint that the run
/// emits exactly `forward` packets forward and `backward` packets backward.
fn generate_with_counts<E: EdgeType, B: HeaderBuilder<E>>(
    automata: &Vec<TimedAutomaton<E>>,
    rng: &mut SeededRng,
    forward: u32,
    backward: u32,
    start: u64,
    builder: B,
) -> (outcome: Result<Vec<B::Info>, GenerationError>)
    ensures
        generated_with_counts(
            views_of(automata@),
            forward,
            backward,
            *old(rng),
            *final(rng),
            start,
            builder,
            match outcome {
                Ok(packets) => Ok(packets@),
                Err(error) => Err(error),
            },
        ),
        outcome matches Ok(packets) ==> {
            &&& packets_in(packets@, PacketDirection::Forward) == forward
            &&& packets_in(packets@, PacketDirection::Backward) == backward
        },
{
    if automata.len() == 0 {
        return Err(GenerationError::NoAutomaton);
    }
    let constraint: ConstraintAutomaton<DirectionMatcher> = match packet_count_constraint(
        forward,
        backward,
    ) {
        Some(constraint) => constraint,
        None => {
            return Err(GenerationError::ConstraintTooLarge);
        },
    };
    let outcome = sample_under(
        &automata[0],
        &constraint,
        rng,
        start,
        builder,
        Ghost(forward as int),
        Ghost(backward as int),
    );
    proof {
        let shown: Result<Seq<B::Info>, GenerationError> = match &outcome {
            Ok(packets) => Ok(packets@),
            Err(error) => Err(*error),
        };
        assert(views_of(automata@)[0] == automata@[0]@);
        assert(sampled_under(
            views_of(automata@)[0],
            constraint,
            *old(rng),
            *rng,
            start,
            builder,
            shown,
        ));
    }
    outcome
}

/// Samples the first automaton of a list.
fn generate<E: EdgeType, B: HeaderBuilder<E>>(
    automata: &Vec<TimedAutomaton<E>>,
    rng: &mut SeededRng,
    start: u64,
    builder: B,
) -> (outcome: Result<Vec<B::Info>, GenerationError>)
    ensures
        generated(
            views_of(automata@),
            *old(rng),
            *final(rng),
            start,
            builder,
            match outcome {
                Ok(packets) => Ok(packets@),
                Err(error) => Err(error),
            },
        ),
{
    if automata.len() == 0 {
        return Err(GenerationError::NoAutomaton);
    }
    let automaton: &TimedAutomaton<E> = &automata[0];
    match automaton.sample(rng, start, builder) {
        Ok(packets) => Ok(packets),
        Err(SampleError::StepLimitExceeded) => Err(GenerationError::StepLimitExceeded),
    }
}

/// Samples the first automaton of a list and rebuilds the flow of the
/// sampled packets.
fn generate_no_flow<E: EdgeType, B: HeaderBuilder<E>>(
    automata: &Vec<TimedAutomaton<E>>,
    rng: &mut SeededRng,
    start: u64,
    builder: B,
) -> (outcome: Result<(Vec<B::Info>, FlowData), GenerationError>)
    ensures
        generated_with_flow(
            views_of(automata@),
            *old(rng),
            *final(rng),
            start,
            builder,
            match outcome {
                Ok((packets, flow)) => Ok((packets@, flow)),
                Err(error) => Err(error),
            },
        ),
{
    let packets: Vec<B::Info> = match generate(automata, rng, start, builder) {
        Ok(packets) => packets,
        Err(error) => {
            return Err(error);
        },
    };
    match reconstruct_flow(&packets, start) {
        Some(flow) => Ok((packets, flow)),
        None => {
            proof {
                assert(generated(
                    views_of(automata@),
                    *old(rng),
                    *rng,
                    start,
                    builder,
                    Ok::<Seq<B::Info>, GenerationError>(packets@),
                ));
            }
            Err(GenerationError::FlowOverflow)
        },
    }
}

impl Stage2 {
    /// A stage with an empty library, whose random source is the generator
    /// that `seed` selects, at the start of its stream.
    pub fn new(seed: u64) -> (stage: Stage2)
        ensures
            stage@ == (Stage2View {
                tcp: Seq::empty(),
                udp: Seq::empty(),
                icmp: Seq::empty(),
                rng: SeededRng { seed, position: 0 },
            }),
    {
        let stage = Stage2 {
            tcp_automata: Vec::new(),
            udp_automata: Vec::new(),
            icmp_automata: Vec::new(),
            rng: SeededRng::new(seed),
        };
        proof {
            assert(stage@.tcp =~= Seq::empty());
            assert(stage@.udp =~= Seq::empty());
            assert(stage@.icmp =~= Seq::empty());
        }
        stage
    }

    /// The number of automata the library holds for each protocol: TCP,
    /// UDP and ICMP, in this order.
    pub fn automata_count(&self) -> (count: (usize, usize, usize))
        ensures
            count.0 == self@.tcp.len(),
            count.1 == self@.udp.len(),
            count.2 == self@.icmp.len(),
    {
        (self.tcp_automata.len(), self.udp_automata.len(), self.icmp_automata.len())
    }

    /// The random source as it stands.
    pub fn rng(&self) -> (rng: SeededRng)
        ensures
            rng == self@.rng,
    {
        self.rng
    }

    /// Builds the automaton that a definition describes and adds it to the
    /// automata of the definition's protocol.
    pub fn import_automata(&mut self, definition: JsonAutomaton) -> (outcome: Result<
        Loaded,
        ImportError,
    >)
        ensures
            (final(self)@, outcome) == spec_import_into(old(self)@, definition),
    {
        let loaded = Loaded {
            protocol: definition.protocol,
            default_step_bound: definition.max_steps.is_none(),
        };
        match definition.protocol {
            JsonProtocol::TCP => {
                match TimedAutomaton::<TCPEdgeTuple>::import_timed_automaton(definition) {
                    Ok(automaton) => {
                        self.tcp_automata.push(automaton);
                        proof {
                            assert(self@.tcp =~= old(self)@.tcp.push(automaton@));
                        }
                        Ok(loaded)
                    },
                    Err(fault) => Err(ImportError::InvalidAutomaton(fault)),
                }
            },
            JsonProtocol::UDP => {
                match TimedAutomaton::<UDPEdgeTuple>::import_timed_automaton(definition) {
                    Ok(automaton) => {
                        self.udp_automata.push(automaton);
                        proof {
                            assert(self@.udp =~= old(self)@.udp.push(automaton@));
                        }
                        Ok(loaded)
                    },
                    Err(fault) => Err(ImportError::InvalidAutomaton(fault)),
                }
            },
            JsonProtocol::ICMP => {
                match TimedAutomaton::<ICMPEdgeTuple>::import_timed_automaton(definition) {
                    Ok(automaton) => {
                        self.icmp_automata.push(automaton);
                        proof {
                            assert(self@.icmp =~= old(self)@.icmp.push(automaton@));
                        }
                        Ok(loaded)
                    },
                    Err(fault) => Err(ImportError::InvalidAutomaton(fault)),
                }
            },
        }
    }

    /// Offers the model files of a directory to the library, in their
    /// order. A file that gives no automaton is passed over; the files
    /// after it are still offered.
    pub fn import_automata_from_dir(&mut self, files: Vec<ModelFile>) -> (report: ImportReport)
        ensures
            final(self)@ == spec_import_all(old(self)@, files@, files@.len() as int),
            report.outcomes@.len() == files@.len(),
            forall|i: int|
                0 <= i < files@.len() ==> {
                    &&& (#[trigger] report.outcomes@[i]).file_name == files@[i].file_name
                    &&& report.outcomes@[i].result == spec_file_outcome(old(self)@, files@, i)
                },
            report.loaded == loaded_among(report.outcomes@, files@.len() as int),
    {
        let ghost all: Seq<ModelFile> = files@;
        let mut outcomes: Vec<FileOutcome> = Vec::with_capacity(files.len());
        let mut loaded: usize = 0;
        for file in iter: files
            invariant
                iter.seq() == all,
                outcomes@.len() == iter.index(),
                self@ == spec_import_all(old(self)@, all, iter.index() as int),
                forall|i: int|
                    0 <= i < outcomes@.len() ==> {
                        &&& (#[trigger] outcomes@[i]).file_name == all[i].file_name
                        &&& outcomes@[i].result == spec_file_outcome(old(self)@, all, i)
                    },
                loaded == loaded_among(outcomes@, outcomes@.len() as int),
                loaded <= outcomes@.len(),
                all.len() <= usize::MAX,
        {
            let ghost before: Seq<FileOutcome> = outcomes@;
            let ModelFile { file_name, content } = file;
            let result: Result<Loaded, ImportError> = match content {
                Err(fault) => Err(fault),
                Ok(definition) => self.import_automata(definition),
            };
            if result.is_ok() {
                loaded = loaded + 1;
            }
            outcomes.push(FileOutcome { file_name, result });
            proof {
                lemma_loaded_prefix(before, outcomes@, before.len() as int);
            }
        }
        ImportReport { loaded, outcomes }
    }

    /// Samples the packets of a TCP flow from the first TCP automaton,
    /// starting at the flow's timestamp. Sequence numbers count from zero
    /// on both sides.
    pub fn generate_tcp_packets_info(&mut self, flow: FlowData) -> (outcome: Result<
        PacketsIR<TCPPacketInfo>,
        GenerationError,
    >)
        ensures
            final(self)@.tcp == old(self)@.tcp,
            final(self)@.udp == old(self)@.udp,
            final(self)@.icmp == old(self)@.icmp,
            generated(
                old(self)@.tcp,
                old(self)@.rng,
                final(self)@.rng,
                flow.timestamp,
                TcpSession { client_next: 0, server_next: 0 },
                match outcome {
                    Ok(ir) => Ok(ir.packets_info@),
                    Err(error) => Err(error),
                },
            ),
            outcome matches Ok(ir) ==> ir.flow == Flow::TCPFlow(flow),
    {
        let session: TcpSession = TcpSession::new(0, 0);
        match generate(&self.tcp_automata, &mut self.rng, flow.timestamp, session) {
            Ok(packets_info) => Ok(PacketsIR { packets_info, flow: Flow::TCPFlow(flow) }),
            Err(error) => Err(error),
        }
    }

    /// Samples the packets of a TCP flow that starts at `ts` from the first
    /// TCP automaton, and rebuilds the flow from the sampled packets.
    pub fn generate_tcp_packets_info_no_flow(&mut self, ts: u64) -> (outcome: Result<
        PacketsIR<TCPPacketInfo>,
        GenerationError,
    >)
        ensures
            final(self)@.tcp == old(self)@.tcp,
            final(self)@.udp == old(self)@.udp,
            final(self)@.icmp == old(self)@.icmp,
            generated_with_flow(
                old(self)@.tcp,
                old(self)@.rng,
                final(self)@.rng,
                ts,
                TcpSession { client_next: 0, server_next: 0 },
                match outcome {
                    Ok(ir) => Ok((ir.packets_info@, ir.flow->TCPFlow_0)),
                    Err(error) => Err(error),
                },
            ),
            outcome matches Ok(ir) ==> ir.flow is TCPFlow,
    {
        let session: TcpSession = TcpSession::new(0, 0);
        match generate_no_flow(&self.tcp_automata, &mut self.rng, ts, session) {
            Ok((packets_info, flow)) => Ok(PacketsIR { packets_info, flow: Flow::TCPFlow(flow) }),
            Err(error) => Err(error),
        }
    }

    /// Samples the packets of a UDP flow from the first UDP automaton,
    /// starting at the flow's timestamp.
    pub fn generate_udp_packets_info(&mut self, flow: FlowData) -> (outcome: Result<
        PacketsIR<UDPPacketInfo>,
        GenerationError,
    >)
        ensures
            final(self)@.tcp == old(self)@.tcp,
            final(self)@.udp == old(self)@.udp,
            final(self)@.icmp == old(self)@.icmp,
            generated(
                old(self)@.udp,
                old(self)@.rng,
                final(self)@.rng,
                flow.timestamp,
                UdpExchange { client_sent: 0, server_sent: 0 },
                match outcome {
                    Ok(ir) => Ok(ir.packets_info@),
                    Err(error) => Err(error),
                },
            ),
            outcome matches Ok(ir) ==> ir.flow == Flow::UDPFlow(flow),
    {
        let exchange: UdpExchange = UdpExchange::new();
        match generate(&self.udp_automata, &mut self.rng, flow.timestamp, exchange) {
            Ok(packets_info) => Ok(PacketsIR { packets_info, flow: Flow::UDPFlow(flow) }),
            Err(error) => Err(error),
        }
    }

    /// Samples the packets of a UDP flow that starts at `ts` from the first
    /// UDP automaton, and rebuilds the flow from the sampled packets.
    pub fn generate_udp_packets_info_no_flow(&mut self, ts: u64) -> (outcome: Result<
        PacketsIR<UDPPacketInfo>,
        GenerationError,
    >)
        ensures
            final(self)@.tcp == old(self)@.tcp,
            final(self)@.udp == old(self)@.udp,
            final(self)@.icmp == old(self)@.icmp,
            generated_with_flow(
                old(self)@.udp,
                old(self)@.rng,
                final(self)@.rng,
                ts,
                UdpExchange { client_sent: 0, server_sent: 0 },
                match outcome {
                    Ok(ir) => Ok((ir.packets_info@, ir.flow->UDPFlow_0)),
                    Err(error) => Err(error),
                },
            ),
            outcome matches Ok(ir) ==> ir.flow is UDPFlow,
    {
        let exchange: UdpExchange = UdpExchange::new();
        match generate_no_flow(&self.udp_automata, &mut self.rng, ts, exchange) {
            Ok((packets_info, flow)) => Ok(PacketsIR { packets_info, flow: Flow::UDPFlow(flow) }),
            Err(error) => Err(error),
        }
    }

    /// Samples the packets of an ICMP flow from the first ICMP automaton,
    /// starting at the flow's timestamp.
    pub fn generate_icmp_packets_info(&mut self, flow: FlowData) -> (outcome: Result<
        PacketsIR<ICMPPacketInfo>,
        GenerationError,
    >)
        ensures
            final(self)@.tcp == old(self)@.tcp,
            final(self)@.udp == old(self)@.udp,
            final(self)@.icmp == old(self)@.icmp,
            generated(
                old(self)@.icmp,
                old(self)@.rng,
                final(self)@.rng,
                flow.timestamp,
                IcmpExchange { next_request: 0, last_request: 0 },
                match outcome {
                    Ok(ir) => Ok(ir.packets_info@),
                    Err(error) => Err(error),
                },
            ),
            outcome matches Ok(ir) ==> ir.flow == Flow::ICMPFlow(flow),
    {
        let exchange: IcmpExchange = IcmpExchange::new();
        match generate(&self.icmp_automata, &mut self.rng, flow.timestamp, exchange) {
            Ok(packets_info) => Ok(PacketsIR { packets_info, flow: Flow::ICMPFlow(flow) }),
            Err(error) => Err(error),
        }
    }

    /// Samples the packets of an ICMP flow that starts at `ts` from the
    /// first ICMP automaton, and rebuilds the flow from the sampled packets.
    pub fn generate_icmp_packets_info_no_flow(&mut self, ts: u64) -> (outcome: Result<
        PacketsIR<ICMPPacketInfo>,
        GenerationError,
    >)
        ensures
            final(self)@.tcp == old(self)@.tcp,
            final(self)@.udp == old(self)@.udp,
            final(self)@.icmp == old(self)@.icmp,
            generated_with_flow(
                old(self)@.icmp,
                old(self)@.rng,
                final(self)@.rng,
                ts,
                IcmpExchange { next_request: 0, last_request: 0 },
                match outcome {
                    Ok(ir) => Ok((ir.packets_info@, ir.flow->ICMPFlow_0)),
                    Err(error) => Err(error),
                },
            ),
            outcome matches Ok(ir) ==> ir.flow is ICMPFlow,
    {
        let exchange: IcmpExchange = IcmpExchange::new();
        match generate_no_flow(&self.icmp_automata, &mut self.rng, ts, exchange) {
            Ok((packets_info, flow)) => Ok(
                PacketsIR { packets_info, flow: Flow::ICMPFlow(flow) },
            ),
            Err(error) => Err(error),
        }
    }

    /// Samples the packets of a TCP flow from the first TCP automaton, as
    /// `generate_tcp_packets_info` does, but only among the runs that emit
    /// as many packets in each direction as the flow counts.
    pub fn generate_tcp_packets_info_constrained(&mut self, flow: FlowData) -> (outcome: Result<
        PacketsIR<TCPPacketInfo>,
        GenerationError,
    >)
        ensures
            final(self)@.tcp == old(self)@.tcp,
            final(self)@.udp == old(self)@.udp,
            final(self)@.icmp == old(self)@.icmp,
            generated_with_counts(
                old(self)@.tcp,
                flow.fwd_packets_count,
                flow.bwd_packets_count,
                old(self)@.rng,
                final(self)@.rng,
                flow.timestamp,
                TcpSession { client_next: 0, server_next: 0 },
                match outcome {
                    Ok(ir) => Ok(ir.packets_info@),
                    Err(error) => Err(error),
                },
            ),
            outcome matches Ok(ir) ==> {
                &&& ir.flow == Flow::TCPFlow(flow)
                &&& packets_in(ir.packets_info@, PacketDirection::Forward)
                    == flow.fwd_packets_count
                &&& packets_in(ir.packets_info@, PacketDirection::Backward)
                    == flow.bwd_packets_count
            },
    {
        let session: TcpSession = TcpSession::new(0, 0);
        match generate_with_counts(
            &self.tcp_automata,
            &mut self.rng,
            flow.fwd_packets_count,
            flow.bwd_packets_count,
            flow.timestamp,
            session,
        ) {
            Ok(packets_info) => Ok(PacketsIR { packets_info, flow: Flow::TCPFlow(flow) }),
            Err(error) => Err(error),
        }
    }

    /// Samples the packets of a UDP flow from the first UDP automaton, as
    /// `generate_udp_packets_info` does, but only among the runs that emit
    /// as many packets in each direction as the flow counts.
    pub fn generate_udp_packets_info_constrained(&mut self, flow: FlowData) -> (outcome: Result<
        PacketsIR<UDPPacketInfo>,
        GenerationError,
    >)
        ensures
            final(self)@.tcp == old(self)@.tcp,
            final(self)@.udp == old(self)@.udp,
            final(self)@.icmp == old(self)@.icmp,
            generated_with_counts(
                old(self)@.udp,
                flow.fwd_packets_count,
                flow.bwd_packets_count,
                old(self)@.rng,
                final(self)@.rng,
                flow.timestamp,
                UdpExchange { client_sent: 0, server_sent: 0 },
                match outcome {
                    Ok(ir) => Ok(ir.packets_info@),
                    Err(error) => Err(error),
                },
            ),
            outcome matches Ok(ir) ==> {
                &&& ir.flow == Flow::UDPFlow(flow)
                &&& packets_in(ir.packets_info@, PacketDirection::Forward)
                    == flow.fwd_packets_count
                &&& packets_in(ir.packets_info@, PacketDirection::Backward)
                    == flow.bwd_packets_count
            },
    {
        let exchange: UdpExchange = UdpExchange::new();
        match generate_with_counts(
            &self.udp_automata,
            &mut self.rng,
            flow.fwd_packets_count,
            flow.bwd_packets_count,
            flow.timestamp,
            exchange,
        ) {
            Ok(packets_info) => Ok(PacketsIR { packets_info, flow: Flow::UDPFlow(flow) }),
            Err(error) => Err(error),
        }
    }

    /// Samples the packets of an ICMP flow from the first ICMP automaton, as
    /// `generate_icmp_packets_info` does, but only among the runs that emit
    /// as many packets in each direction as the flow counts.
    pub fn generate_icmp_packets_info_constrained(&mut self, flow: FlowData) -> (outcome: Result<
        PacketsIR<ICMPPacketInfo>,
        GenerationError,
    >)
        ensures
            final(self)@.tcp == old(self)@.tcp,
            final(self)@.udp == old(self)@.udp,
            final(self)@.icmp == old(self)@.icmp,
            generated_with_counts(
                old(self)@.icmp,
                flow.fwd_packets_count,
                flow.bwd_packets_count,
                old(self)@.rng,
                final(self)@.rng,
                flow.timestamp,
                IcmpExchange { next_request: 0, last_request: 0 },
                match outcome {
                    Ok(ir) => Ok(ir.packets_info@),
                    Err(error) => Err(error),
                },
            ),
            outcome matches Ok(ir) ==> {
                &&& ir.flow == Flow::ICMPFlow(flow)
                &&& packets_in(ir.packets_info@, PacketDirection::Forward)
                    == flow.fwd_packets_count
                &&& packets_in(ir.packets_info@, PacketDirection::Backward)
                    == flow.bwd_packets_count
            },
    {
        let exchange: IcmpExchange = IcmpExchange::new();
        match generate_with_counts(
            &self.icmp_automata,
            &mut self.rng,
            flow.fwd_packets_count,
            flow.bwd_packets_count,
            flow.timestamp,
            exchange,
        ) {
            Ok(packets_info) => Ok(
                PacketsIR { packets_info, flow: Flow::ICMPFlow(flow) },
            ),
            Err(error) => Err(error),
        }
    }
}

/// The count of loaded files among the first outcomes does not change when
/// an outcome is added at the end.
proof fn lemma_loaded_prefix(shorter: Seq<FileOutcome>, longer: Seq<FileOutcome>, upto: int)
    requires
        0 <= upto <= shorter.len(),
        longer.len() >= shorter.len(),
        forall|i: int| 0 <= i < shorter.len() ==> shorter[i] == longer[i],
    ensures
        loaded_among(longer, upto) == loaded_among(shorter, upto),
    decreases upto,
{
    if upto > 0 {
        lemma_loaded_prefix(shorter, longer, upto - 1);
    }
}

} // verus!
