//! The seeded random source of the reservoir and of the generators.
//!
//! The source is a ChaCha stream with eight rounds. Its state is held as
//! plain numbers, the seed and the position in the stream, so that what is
//! drawn is a function of these alone.

use rand::seq::SliceRandom;
use rand::{Rng, RngCore, SeedableRng};
use rand_chacha::ChaCha8Rng;
use vstd::prelude::*;
use crate::policy::RATE_ONE;

verus! {

/// What `Rng::gen_range(0..bound)` draws from the ChaCha8 stream of a seed
/// at a position, counted in 32-bit words.
pub uninterp spec fn chacha8_below(seed: u64, position: u128, bound: u64) -> u64;

/// The position of the ChaCha8 stream of a seed after that draw, as
/// `ChaCha8Rng::get_word_pos` reports it.
pub uninterp spec fn chacha8_position_after_below(seed: u64, position: u128, bound: u64) -> u128;

/// What `RngCore::next_u64` draws from the ChaCha8 stream of a seed at a
/// position.
pub uninterp spec fn chacha8_next(seed: u64, position: u128) -> u64;

/// A number drawn from the stream, and the position of the stream after
/// the draw.
pub struct Draw {
    pub value: u64,
    pub position: u128,
}

/// Draws a number below `bound`: the generator is made from the seed with
/// `ChaCha8Rng::seed_from_u64` and set to the position with `set_word_pos`;
/// `Rng::gen_range` draws from `0..bound`, which never yields `bound` or
/// more, and `get_word_pos` reports where the stream stands afterwards. The
/// range must not be empty: `gen_range` panics on an empty one.
#[verifier::external_body]
pub(crate) fn draw_below(seed: u64, position: u128, bound: u64) -> (r: Draw)
    requires
        bound > 0,
    ensures
        r.value == chacha8_below(seed, position, bound),
        r.value < bound,
        r.position == chacha8_position_after_below(seed, position, bound),
{
    let mut rng = ChaCha8Rng::seed_from_u64(seed);
    rng.set_word_pos(position);
    let value: u64 = rng.gen_range(0..bound);
    Draw { value, position: rng.get_word_pos() }
}

/// Draws 64 bits: the generator is made from the seed and set to the
/// position as in [`draw_below`]; `RngCore::next_u64` reads two words of
/// the stream, so that the stream stands two words further afterwards
/// (the position counts modulo 2^68, the period of the stream).
#[verifier::external_body]
pub(crate) fn draw_bits(seed: u64, position: u128) -> (r: u64)
    ensures
        r == chacha8_next(seed, position),
{
    let mut rng = ChaCha8Rng::seed_from_u64(seed);
    rng.set_word_pos(position);
    rng.next_u64()
}

/// The position two words further in a stream whose positions count
/// modulo 2^68.
pub open spec fn two_words_on(position: u128) -> u128 {
    ((position as nat + 2) % 0x10_0000_0000_0000_0000) as u128
}

/// The position of the stream after 64 bits are drawn at `position`.
pub fn after_bits(position: u128) -> (r: u128)
    ensures
        r == two_words_on(position),
{
    ((position % 0x10_0000_0000_0000_0000) + 2) % 0x10_0000_0000_0000_0000
}

/// The index of the item that `SliceRandom::choose` picks from a slice of
/// `len` items with the ChaCha8 stream of a seed at a position.
pub uninterp spec fn chacha8_choice(seed: u64, position: u128, len: nat) -> nat;

/// The position of the ChaCha8 stream of a seed after that choice, as
/// `ChaCha8Rng::get_word_pos` reports it.
pub uninterp spec fn chacha8_position_after_choice(seed: u64, position: u128, len: nat) -> u128;

/// Chooses an item of a slice: the generator is made from the seed and set
/// to the position as in [`draw_below`]; `SliceRandom::choose` returns a
/// reference to one of the items of a slice that is not empty, the one at
/// an index that it draws below the length, and `get_word_pos` reports
/// where the stream stands afterwards. Which index is drawn depends on the
/// stream and the length alone, not on the items.
#[verifier::external_body]
pub(crate) fn choose_from<T>(seed: u64, position: u128, items: &[T]) -> (r: (&T, u128))
    requires
        items@.len() > 0,
    ensures
        items@.contains(*r.0),
        *r.0 == items@[chacha8_choice(seed, position, items@.len()) as int],
        r.1 == chacha8_position_after_choice(seed, position, items@.len()),
{
    let mut rng = ChaCha8Rng::seed_from_u64(seed);
    rng.set_word_pos(position);
    let item = items.choose(&mut rng).unwrap();
    (item, rng.get_word_pos())
}

/// The item that a choice from the items picks with the stream of a seed
/// at a position.
pub open spec fn chosen<T>(seed: u64, position: u128, items: Seq<T>) -> T {
    items[chacha8_choice(seed, position, items.len()) as int]
}

/// The position of the stream after a choice among `len` items.
pub open spec fn after_choice(seed: u64, position: u128, len: nat) -> u128 {
    chacha8_position_after_choice(seed, position, len)
}

/// The indices below `n`, in order.
pub open spec fn indices(n: nat) -> Seq<usize> {
    Seq::new(n, |i: int| i as usize)
}

/// The index that a choice among `len` items picks with the stream of a
/// seed at a position: what the choice picks among the indices themselves.
pub open spec fn choice_index(seed: u64, position: u128, len: nat) -> nat {
    chosen(seed, position, indices(len)) as nat
}

/// An index picked below a length, and the position of the stream after
/// the choice.
pub struct Pick {
    pub index: usize,
    pub position: u128,
}

/// Picks an index below `len` as a choice among that many items does.
pub fn pick(seed: u64, position: u128, len: usize) -> (r: Pick)
    requires
        len > 0,
    ensures
        r.index == choice_index(seed, position, len as nat),
        r.index < len,
        r.position == after_choice(seed, position, len as nat),
{
    let mut ids: Vec<usize> = Vec::new();
    let mut i: usize = 0;
    while i < len
        invariant
            i <= len,
            ids@ =~= indices(i as nat),
        decreases len - i,
    {
        ids.push(i);
        i += 1;
    }
    let r = choose_from(seed, position, ids.as_slice());
    let index: usize = *r.0;
    proof {
        let k = choose|k: int| 0 <= k < ids@.len() && ids@[k] == index;
        assert(index == k);
    }
    Pick { index, position: r.1 }
}

/// The number below which 64 drawn bits count as a hit at the given rate
/// in millionths: the rate as a share of 2^64, rounded down.
pub open spec fn chance_threshold(rate: u32) -> nat {
    rate as nat * 0x1_0000_0000_0000_0000 / 1_000_000
}

/// The outcome of a toss, and the position of the stream after it.
pub struct Toss {
    pub hit: bool,
    pub position: u128,
}

/// A toss that hits at the given rate in millionths: a rate of one always
/// hits and draws nothing; any other draws 64 bits and hits where they lie
/// below the threshold of the rate.
pub open spec fn toss_of(seed: u64, position: u128, rate: u32) -> Toss {
    if rate >= RATE_ONE {
        Toss { hit: true, position }
    } else {
        Toss {
            hit: (chacha8_next(seed, position) as nat) < chance_threshold(rate),
            position: two_words_on(position),
        }
    }
}

/// Tosses at the given rate in millionths.
pub fn toss(seed: u64, position: u128, rate: u32) -> (t: Toss)
    requires
        rate <= RATE_ONE,
    ensures
        t == toss_of(seed, position, rate),
{
    if rate >= RATE_ONE {
        Toss { hit: true, position }
    } else {
        let bits = draw_bits(seed, position);
        let threshold: u128 = (rate as u128) * 0x1_0000_0000_0000_0000u128 / 1_000_000u128;
        Toss { hit: (bits as u128) < threshold, position: after_bits(position) }
    }
}

/// What `Rng::gen_range(0..bound)` draws for a bound of 32 bits from the
/// ChaCha8 stream of a seed at a position.
pub uninterp spec fn chacha8_below32(seed: u64, position: u128, bound: u32) -> u32;

/// The position of the ChaCha8 stream of a seed after that draw, as
/// `ChaCha8Rng::get_word_pos` reports it.
pub uninterp spec fn chacha8_position_after_below32(seed: u64, position: u128, bound: u32) -> u128;

/// A number of 32 bits drawn from the stream, and the position of the
/// stream after the draw.
pub struct Draw32 {
    pub value: u32,
    pub position: u128,
}

/// Draws a number of 32 bits below `bound`: as [`draw_below`] does, with
/// `Rng::gen_range` on a range of 32 bits, which draws words of 32 bits.
/// The range must not be empty.
#[verifier::external_body]
pub(crate) fn draw_below32(seed: u64, position: u128, bound: u32) -> (r: Draw32)
    requires
        bound > 0,
    ensures
        r.value == chacha8_below32(seed, position, bound),
        r.value < bound,
        r.position == chacha8_position_after_below32(seed, position, bound),
{
    let mut rng = ChaCha8Rng::seed_from_u64(seed);
    rng.set_word_pos(position);
    let value: u32 = rng.gen_range(0..bound);
    Draw32 { value, position: rng.get_word_pos() }
}

/// What `RngCore::next_u32` draws from the ChaCha8 stream of a seed at a
/// position.
pub uninterp spec fn chacha8_next32(seed: u64, position: u128) -> u32;

/// The position of the ChaCha8 stream of a seed after `next_u32`, as
/// `ChaCha8Rng::get_word_pos` reports it.
pub uninterp spec fn chacha8_position_after_next32(seed: u64, position: u128) -> u128;

/// Draws 32 bits: the generator is made from the seed and set to the
/// position as in [`draw_below`]; `RngCore::next_u32` reads a word of the
/// stream, and `get_word_pos` reports where the stream stands afterwards.
#[verifier::external_body]
pub(crate) fn draw_bits32(seed: u64, position: u128) -> (r: Draw32)
    ensures
        r.value == chacha8_next32(seed, position),
        r.position == chacha8_position_after_next32(seed, position),
{
    let mut rng = ChaCha8Rng::seed_from_u64(seed);
    rng.set_word_pos(position);
    let value = rng.next_u32();
    Draw32 { value, position: rng.get_word_pos() }
}

/// A random stream: a seed and the position in its stream.
#[derive(Debug, Clone, Copy, PartialEq, Eq, Structural)]
pub struct Stream {
    /// The seed.
    pub seed: u64,
    /// The position, in words.
    pub position: u128,
}

impl Stream {
    /// The stream of a seed at its start.
    pub fn new(seed: u64) -> (s: Self)
        ensures
            s == (Stream { seed, position: 0 }),
    {
        Stream { seed, position: 0 }
    }

    /// Draws a number below `bound`.
    pub fn below(&mut self, bound: u64) -> (r: u64)
        requires
            bound > 0,
        ensures
            r == chacha8_below(old(self).seed, old(self).position, bound),
            r < bound,
            final(self).seed == old(self).seed,
            final(self).position == chacha8_position_after_below(
                old(self).seed,
                old(self).position,
                bound,
            ),
    {
        let d = draw_below(self.seed, self.position, bound);
        self.position = d.position;
        d.value
    }

    /// Draws a number of 32 bits below `bound`.
    pub fn below32(&mut self, bound: u32) -> (r: u32)
        requires
            bound > 0,
        ensures
            r == chacha8_below32(old(self).seed, old(self).position, bound),
            r < bound,
            final(self).seed == old(self).seed,
            final(self).position == chacha8_position_after_below32(
                old(self).seed,
                old(self).position,
                bound,
            ),
    {
        let d = draw_below32(self.seed, self.position, bound);
        self.position = d.position;
        d.value
    }

    /// Draws 64 bits.
    pub fn bits(&mut self) -> (r: u64)
        ensures
            r == chacha8_next(old(self).seed, old(self).position),
            final(self).seed == old(self).seed,
            final(self).position == two_words_on(old(self).position),
    {
        let r = draw_bits(self.seed, self.position);
        self.position = after_bits(self.position);
        r
    }

    /// Draws 32 bits.
    pub fn bits32(&mut self) -> (r: u32)
        ensures
            r == chacha8_next32(old(self).seed, old(self).position),
            final(self).seed == old(self).seed,
            final(self).position == chacha8_position_after_next32(
                old(self).seed,
                old(self).position,
            ),
    {
        let d = draw_bits32(self.seed, self.position);
        self.position = d.position;
        d.value
    }

    /// Picks an index below `len`.
    pub fn pick(&mut self, len: usize) -> (r: usize)
        requires
            len > 0,
        ensures
            r == choice_index(old(self).seed, old(self).position, len as nat),
            r < len,
            final(self).seed == old(self).seed,
            final(self).position == after_choice(old(self).seed, old(self).position, len as nat),
    {
        let p = pick(self.seed, self.position, len);
        self.position = p.position;
        p.index
    }

    /// Tosses at the given rate in millionths.
    pub fn toss(&mut self, rate: u32) -> (r: bool)
        requires
            rate <= RATE_ONE,
        ensures
            r == toss_of(old(self).seed, old(self).position, rate).hit,
            final(self).seed == old(self).seed,
            final(self).position == toss_of(old(self).seed, old(self).position, rate).position,
    {
        let t = toss(self.seed, self.position, rate);
        self.position = t.position;
        t.hit
    }
}

} // verus!
