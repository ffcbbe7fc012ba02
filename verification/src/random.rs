//! The deterministic random stream that terrain generation draws from.
//!
//! The generator itself is `oorandom::Rand32`. The stream keeps the
//! generator's two state words as plain integers between draws, so that a
//! stream can be compared, copied and spoken of in contracts.

use oorandom::Rand32;
use vstd::prelude::*;

verus! {

/// Multiplier of the generator's linear congruential step.
pub const RAND32_MULTIPLIER: u64 = 6364136223846793005;

/// Increment word of every generator made by `Rand32::new`: its default
/// increment shifted left by one, with the lowest bit set.
pub const RAND32_INCREMENT: u64 = 2885390081777926815;

/// `value` reduced to 64 bits.
pub open spec fn wrap64(value: int) -> int {
    value % 0x1_0000_0000_0000_0000
}

/// State words `(state, increment)` of a generator freshly seeded with `seed`:
/// one step from zero, the seed added, one more step, all in 64-bit
/// wrapping arithmetic.
pub open spec fn seeded_state(seed: u64) -> (u64, u64) {
    let primed = wrap64(RAND32_INCREMENT + seed);
    (wrap64(primed * RAND32_MULTIPLIER + RAND32_INCREMENT) as u64, RAND32_INCREMENT)
}

/// What `Rand32::rand_range(low..high)` does to a generator whose state words
/// are `state`: the value it returns, and the state words it leaves behind.
pub uninterp spec fn rand32_range(state: (u64, u64), low: u32, high: u32) -> (u32, (u64, u64));

/// Calls `Rand32::new(seed)` and reads the new generator's state words with
/// `Rand32::state`. Trusted: the words are those that `seeded_state` spells
/// out, as `Rand32::new_inc` computes them.
#[verifier::external_body]
fn rand32_new(seed: u64) -> (state: (u64, u64))
    ensures
        state == seeded_state(seed),
{
    Rand32::new(seed).state()
}

/// Rebuilds the generator from its state words with `Rand32::from_state`,
/// calls `Rand32::rand_range(low..high)` on it and reads the state words back
/// with `Rand32::state`. Trusted: value and new state are a function of the
/// state words and the bounds, the value lies in `low..high`, lower bound
/// included and upper bound excluded, and the increment word is left as it
/// was. An empty range is left out, since the generator rejects it. So is an
/// even increment: the generator needs an odd one to run through all of its
/// states, and with an even one a draw may never come to an end.
#[verifier::external_body]
fn rand32_rand_range(state: (u64, u64), low: u32, high: u32) -> (drawn: (u32, (u64, u64)))
    requires
        low < high,
        state.1 % 2 == 1,
    ensures
        drawn == rand32_range(state, low, high),
        low <= drawn.0 < high,
        (drawn.1).1 == state.1,
{
    let mut generator = Rand32::from_state(state);
    let value = generator.rand_range(low..high);
    (value, generator.state())
}

/// A position in the random stream. Its increment word is odd, as the
/// generator needs it.
#[derive(Clone, Copy, Debug)]
pub struct RandomStream {
    state: u64,
    increment: u64,
}

impl View for RandomStream {
    type V = (u64, u64);

    closed spec fn view(&self) -> (u64, u64) {
        (self.state, self.increment)
    }
}

impl RandomStream {
    /// Holds of every stream: the increment word is odd.
    #[verifier::type_invariant]
    pub open spec fn well_formed(&self) -> bool {
        self@.1 % 2 == 1
    }

    /// Starts the stream that belongs to `seed`.
    pub fn new(seed: u64) -> (stream: RandomStream)
        ensures
            stream@ == seeded_state(seed),
    {
        let words = rand32_new(seed);
        RandomStream { state: words.0, increment: words.1 }
    }

    /// Resumes a stream from state words saved with [`RandomStream::state`].
    /// Words with an even increment are no position of any stream and give
    /// nothing.
    pub fn from_state(words: (u64, u64)) -> (stream: Option<RandomStream>)
        ensures
            words.1 % 2 == 1 ==> stream.is_some() && stream.unwrap()@ == words,
            words.1 % 2 != 1 ==> stream.is_none(),
    {
        if words.1 % 2 == 1 {
            Some(RandomStream { state: words.0, increment: words.1 })
        } else {
            None
        }
    }

    /// The state words of the stream's current position. The increment word
    /// is odd.
    pub fn state(&self) -> (words: (u64, u64))
        ensures
            words == self@,
            words.1 % 2 == 1,
    {
        proof {
            use_type_invariant(self);
        }
        (self.state, self.increment)
    }

    /// Draws the next value in `low..high` and advances the stream.
    pub fn rand_range(&mut self, low: u32, high: u32) -> (value: u32)
        requires
            low < high,
        ensures
            (value, final(self)@) == rand32_range(old(self)@, low, high),
            low <= value < high,
    {
        proof {
            use_type_invariant(&*self);
        }
        let drawn = rand32_rand_range((self.state, self.increment), low, high);
        self.state = (drawn.1).0;
        drawn.0
    }
}

} // verus!
