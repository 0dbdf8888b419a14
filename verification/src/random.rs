//! Random sources: the seeded generator that the sampling stage owns, and a
//! scripted source that replays recorded draws.

use rand::RngCore;
use rand::SeedableRng;
use rand_pcg::Pcg32;
use vstd::arithmetic::div_mod::lemma_add_mod_noop_right;
use vstd::prelude::*;

verus! {

/// The `index`-th 32-bit output of the PCG32 generator that `seed` selects,
/// counting from zero.
pub uninterp spec fn pcg32_output(seed: u64, index: u64) -> u32;

/// Asks `rand_pcg::Pcg32` for one output with `RngCore::next_u32`. The two
/// arguments are first turned into the generator's state: the generator is
/// made with `SeedableRng::seed_from_u64(seed)` and moved `index` outputs
/// ahead with `Pcg32::advance`, which stands for that many calls of
/// `next_u32`.
///
/// Not proved, and taken from the crate: all three are functions of the
/// generator's state alone, and the crate keeps its outputs stable from
/// version to version and from machine to machine. So the value depends on
/// `seed` and `index` only. The contract gives that value its name and
/// claims nothing else of it.
#[verifier::external_body]
fn pcg32_draw(seed: u64, index: u64) -> (word: u32)
    ensures
        word == pcg32_output(seed, index),
{
    let mut generator = Pcg32::seed_from_u64(seed);
    generator.advance(index);
    generator.next_u32()
}

/// A stream of 32-bit draws that is consumed one draw at a time.
pub trait RandomSource: Sized {
    /// The draw that the `k`-th next call of `next_u32` returns, for `k`
    /// from zero.
    spec fn output(&self, k: int) -> u32;

    /// The source as it stands when `draws` more draws are taken.
    spec fn skip(&self, draws: int) -> Self;

    /// Taking no draw leaves the source as it is; taking draws one after
    /// the other is taking them at once; and the draws of a source that has
    /// moved on are the later draws of the source.
    proof fn lemma_skip(&self, taken: int, more: int)
        requires
            0 <= taken,
            0 <= more,
        ensures
            self.skip(0) == *self,
            self.skip(taken).skip(more) == self.skip(taken + more),
            self.skip(taken).output(more) == self.output(taken + more),
    ;

    fn next_u32(&mut self) -> (word: u32)
        ensures
            word == old(self).output(0),
            *final(self) == old(self).skip(1),
    ;
}

/// Reduces an integer to the range of `u64`.
pub open spec fn wrap_u64(x: int) -> u64 {
    (x % 0x1_0000_0000_0000_0000) as u64
}

/// A PCG32 generator, held as its seed and the number of draws taken so far.
///
/// The generator has period 2^64, so the position counts modulo 2^64.
#[derive(Debug, Clone, Copy, PartialEq, Eq)]
pub struct SeededRng {
    pub seed: u64,
    pub position: u64,
}

impl SeededRng {
    /// The generator for `seed`, at the start of its stream.
    pub fn new(seed: u64) -> (rng: SeededRng)
        ensures
            rng.seed == seed,
            rng.position == 0,
    {
        SeededRng { seed, position: 0 }
    }
}

impl RandomSource for SeededRng {
    open spec fn output(&self, k: int) -> u32 {
        pcg32_output(self.seed, wrap_u64(self.position + k))
    }

    open spec fn skip(&self, draws: int) -> SeededRng {
        SeededRng { seed: self.seed, position: wrap_u64(self.position + draws) }
    }

    proof fn lemma_skip(&self, taken: int, more: int) {
        lemma_add_mod_noop_right(more, self.position + taken, 0x1_0000_0000_0000_0000);
        assert(more + (self.position + taken) == self.position + (taken + more));
        assert(wrap_u64(self.position + taken) + more == more + wrap_u64(
            self.position + taken,
        ));
    }

    fn next_u32(&mut self) -> (word: u32) {
        let word: u32 = pcg32_draw(self.seed, self.position);
        self.position = self.position.wrapping_add(1);
        word
    }
}

/// A source that replays a recorded script of draws and yields zero once the
/// script is used up.
#[derive(Debug, PartialEq, Eq)]
pub struct ScriptedSource {
    pub draws: Vec<u32>,
    pub cursor: usize,
}

impl ScriptedSource {
    /// The source that replays `draws` from its first entry.
    pub fn new(draws: Vec<u32>) -> (source: ScriptedSource)
        ensures
            source.draws == draws,
            source.cursor == 0,
    {
        ScriptedSource { draws, cursor: 0 }
    }
}

impl RandomSource for ScriptedSource {
    open spec fn output(&self, k: int) -> u32 {
        if 0 <= self.cursor + k < self.draws@.len() {
            self.draws@[self.cursor + k]
        } else {
            0
        }
    }

    open spec fn skip(&self, draws: int) -> ScriptedSource {
        ScriptedSource {
            draws: self.draws,
            cursor: if self.cursor + draws < self.draws@.len() {
                (self.cursor + draws) as usize
            } else if self.cursor < self.draws@.len() {
                self.draws@.len() as usize
            } else {
                self.cursor
            },
        }
    }

    proof fn lemma_skip(&self, taken: int, more: int) {
        assert(self.draws@.len() == self.draws.len());
    }

    fn next_u32(&mut self) -> (word: u32) {
        if self.cursor < self.draws.len() {
            let word: u32 = self.draws[self.cursor];
            self.cursor = self.cursor + 1;
            word
        } else {
            0
        }
    }
}

/// The place in `0..n` to which a draw points: the draw, read as a fraction
/// of 2^32, times `n`, rounded down.
pub open spec fn spec_scale(draw: u32, n: u64) -> u64 {
    ((draw as int * n as int) / 0x1_0000_0000) as u64
}

/// Maps a draw to a place in `0..n`, each place getting an equal share of
/// the draws up to rounding. For `n == 0` the result is 0.
pub fn scale(draw: u32, n: u64) -> (place: u64)
    ensures
        place == spec_scale(draw, n),
        n > 0 ==> place < n,
        n == 0 ==> place == 0,
{
    proof {
        lemma_scale_bound(draw, n);
    }
    let wide: u128 = (draw as u128) * (n as u128);
    (wide / 0x1_0000_0000u128) as u64
}

/// A scaled draw stays below its bound, and a draw of zero points to zero.
pub proof fn lemma_scale_bound(draw: u32, n: u64)
    ensures
        0 <= draw as int * n as int <= 0xffff_ffff * 0xffff_ffff_ffff_ffff,
        0 <= (draw as int * n as int) / 0x1_0000_0000 <= n as int,
        n > 0 ==> (draw as int * n as int) / 0x1_0000_0000 < n as int,
        n == 0 ==> (draw as int * n as int) / 0x1_0000_0000 == 0,
{
    let d: int = draw as int;
    let m: int = n as int;
    assert(0 <= d * m <= 0xffff_ffff * 0xffff_ffff_ffff_ffff) by (nonlinear_arith)
        requires
            0 <= d <= 0xffff_ffff,
            0 <= m <= 0xffff_ffff_ffff_ffff,
    ;
    assert(0 <= (d * m) / 0x1_0000_0000 <= m) by (nonlinear_arith)
        requires
            0 <= d < 0x1_0000_0000,
            0 <= m,
    ;
    if m > 0 {
        assert((d * m) / 0x1_0000_0000 < m) by (nonlinear_arith)
            requires
                0 <= d < 0x1_0000_0000,
                0 < m,
        ;
    } else {
        assert(d * m == 0) by (nonlinear_arith)
            requires
                m == 0,
        ;
    }
}

} // verus!
