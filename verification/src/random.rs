//! The random stream that drives generation.
//!
//! The standard generator of the `rand` crate is deterministic once seeded:
//! in a given release of the crate, every draw is a function of the
//! generator's state and of the bounds asked for, and so is the state that
//! the draw leaves behind. The contracts below name these functions without
//! spelling them out, so that callers can say which grid a given state
//! produces. Nothing here is proved of the generator itself.

use rand::rngs::OsRng;
use rand::rngs::StdRng;
use rand::Rng;
use rand::SeedableRng;
use vstd::prelude::*;

verus! {

/// The standard generator of `rand`, carried through as an opaque value.
#[verifier::external_type_specification]
#[verifier::external_body]
pub struct ExStdRng(StdRng);

/// The internal state of a generator, as bytes: all that its next draws
/// depend on.
pub uninterp spec fn stream_state(rng: StdRng) -> Seq<u8>;

/// The state that `StdRng::seed_from_u64` builds from a seed.
pub uninterp spec fn seeded_state(seed: u64) -> Seq<u8>;

/// What `Rng::gen_range(low..=high)` returns in a given state, and the state
/// it leaves behind.
pub uninterp spec fn range_outcome(state: Seq<u8>, low: int, high: int) -> (int, Seq<u8>);

/// What `Rng::gen_ratio(numerator, denominator)` returns in a given state, and
/// the state it leaves behind.
pub uninterp spec fn ratio_outcome(state: Seq<u8>, numerator: int, denominator: int) -> (
    bool,
    Seq<u8>,
);

/// The integer drawn from `low..=high` in `state`.
///
/// A generator never leaves the range; the model returns `low` where the
/// uninterpreted outcome would, so that the bound holds of every state.
pub open spec fn drawn_int(state: Seq<u8>, low: int, high: int) -> int {
    let r = range_outcome(state, low, high).0;
    if low <= r <= high {
        r
    } else {
        low
    }
}

/// The state after drawing an integer from `low..=high` in `state`.
pub open spec fn after_int(state: Seq<u8>, low: int, high: int) -> Seq<u8> {
    range_outcome(state, low, high).1
}

/// The outcome of a trial that succeeds with probability
/// `numerator / denominator`: certain at the two ends, drawn in between.
pub open spec fn drawn_bool(state: Seq<u8>, numerator: int, denominator: int) -> bool {
    if numerator == denominator {
        true
    } else if numerator == 0 {
        false
    } else {
        ratio_outcome(state, numerator, denominator).0
    }
}

/// The state after such a trial.
pub open spec fn after_bool(state: Seq<u8>, numerator: int, denominator: int) -> Seq<u8> {
    ratio_outcome(state, numerator, denominator).1
}

/// `StdRng::seed_from_u64`: the generator depends on the seed alone.
#[verifier::external_body]
fn seeded_rng(seed: u64) -> (rng: StdRng)
    ensures
        stream_state(rng) == seeded_state(seed),
{
    StdRng::seed_from_u64(seed)
}

/// `StdRng::from_rng` on the operating system's entropy source. Nothing is
/// known of the state that comes back; `None` when the system has no entropy
/// to give.
#[verifier::external_body]
fn entropy_rng() -> (rng: Option<StdRng>) {
    StdRng::from_rng(OsRng).ok()
}

/// `Rng::gen_range` on an inclusive range of `i32`. It panics on an empty
/// range, which the precondition excludes. The value lies in the range and,
/// with the new state, is the named outcome of the old state.
#[verifier::external_body]
fn gen_range_inclusive(rng: &mut StdRng, low: i32, high: i32) -> (r: i32)
    requires
        low <= high,
    ensures
        low <= r <= high,
        (r as int, stream_state(*final(rng))) == range_outcome(
            stream_state(*old(rng)),
            low as int,
            high as int,
        ),
{
    rng.gen_range(low..=high)
}

/// `Rng::gen_ratio`. It panics on a zero denominator or a numerator above the
/// denominator, which the precondition excludes. The result is always `true`
/// for equal arguments and always `false` for a zero numerator; with the new
/// state it is the named outcome of the old state.
#[verifier::external_body]
fn gen_ratio(rng: &mut StdRng, numerator: u32, denominator: u32) -> (r: bool)
    requires
        0 < denominator,
        numerator <= denominator,
    ensures
        numerator == denominator ==> r,
        numerator == 0 ==> !r,
        (r, stream_state(*final(rng))) == ratio_outcome(
            stream_state(*old(rng)),
            numerator as int,
            denominator as int,
        ),
{
    rng.gen_ratio(numerator, denominator)
}

/// A stream of random draws, owned by whoever generates with it.
pub struct RandomSource {
    rng: StdRng,
}

impl View for RandomSource {
    type V = Seq<u8>;

    closed spec fn view(&self) -> Seq<u8> {
        stream_state(self.rng)
    }
}

impl RandomSource {
    /// A stream that depends on `seed` alone: two streams made from the same
    /// seed give the same draws.
    pub fn seeded(seed: u64) -> (source: RandomSource)
        ensures
            source@ == seeded_state(seed),
    {
        RandomSource { rng: seeded_rng(seed) }
    }

    /// A stream seeded by the operating system, or `None` where the system
    /// cannot provide a seed. Which of the two comes back, and in which
    /// state, is the system's choice: nothing is known of either.
    pub fn from_entropy() -> (source: Option<RandomSource>) {
        match entropy_rng() {
            Some(rng) => Some(RandomSource::from_generator(rng)),
            None => None,
        }
    }

    /// The stream that draws from a given generator, from the state on in
    /// which the generator is handed over.
    pub fn from_generator(generator: StdRng) -> (source: RandomSource)
        ensures
            source@ == stream_state(generator),
    {
        RandomSource { rng: generator }
    }

    /// Draws an integer from `low..=high`.
    pub fn int_between(&mut self, low: i32, high: i32) -> (r: i32)
        requires
            low <= high,
        ensures
            r == drawn_int(old(self)@, low as int, high as int),
            low <= r <= high,
            final(self)@ == after_int(old(self)@, low as int, high as int),
    {
        gen_range_inclusive(&mut self.rng, low, high)
    }

    /// Runs a trial that succeeds with probability `numerator / denominator`.
    pub fn chance(&mut self, numerator: u32, denominator: u32) -> (r: bool)
        requires
            0 < denominator,
            numerator <= denominator,
        ensures
            r == drawn_bool(old(self)@, numerator as int, denominator as int),
            final(self)@ == after_bool(old(self)@, numerator as int, denominator as int),
    {
        gen_ratio(&mut self.rng, numerator, denominator)
    }
}

} // verus!
