//! Synthesis of network traffic from probabilistic timed automata.
//!
//! A model describes one protocol behaviour as a timed automaton whose edges
//! carry a protocol symbol, a weight and a timing model. Sampling walks the
//! automaton with a seeded random source and yields an ordered, timestamped
//! sequence of packet descriptions, which the sampling stage pairs with the
//! flow they belong to.
//!
//! - [`model`] holds model definitions as they are read from model files,
//!   [`automaton`] the automata built from them, and [`graph`] what is said
//!   of their edges.
//! - [`random`], [`timing`] and [`sampling`] hold the random walk.
//! - [`tcp`], [`udp`] and [`icmp`] hold the symbols and packet descriptions
//!   of the three protocols.
//! - [`product`] and [`constraints`] narrow the runs of an automaton to
//!   those that a constraint accepts.
//! - [`stage2`] is the sampling stage, [`flow`] rebuilds a flow from sampled
//!   packets, and [`structs`] holds the data that the stages share.
//! - [`laws`] holds what is proved of sampling and of import.
//!
//! Instants and delays are counted in nanoseconds.

pub mod automaton;
pub mod constraints;
pub mod flow;
pub mod graph;
pub mod icmp;
pub mod laws;
pub mod model;
pub mod product;
pub mod random;
pub mod sampling;
pub mod stage2;
pub mod structs;
pub mod tcp;
pub mod timing;
pub mod udp;
