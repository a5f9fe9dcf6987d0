//! Waiting longer and longer between tries: each wait is twice the one before, up to a cap,
//! plus a little noise so that many callers do not try again in step.
//!
//! Time is a count of milliseconds on the caller's monotonic clock.

use rand::Rng;
use vstd::arithmetic::power2::{lemma_pow2_strictly_increases, lemma_pow2_unfold, pow2};
use vstd::prelude::*;

verus! {

/// A backoff as plain values.
pub struct BackoffView {
    /// Maximum exponent for the backoff.
    pub max_exponent: usize,
    /// Maximum amount of retries.
    pub max_retries: Option<usize>,
    /// Base wait time in ms.
    pub wait: usize,
    /// Maximum randomness.
    pub randomness: usize,
    /// Iteration of the backoff.
    pub i: usize,
    /// Timestamp to sleep until in ms.
    pub sleep_until: u64,
}

impl BackoffView {
    /// Whether every try has been used up.
    pub open spec fn exhausted(self) -> bool {
        self.max_retries matches Some(retries) && self.i > retries
    }

    /// The exponent of the next wait: the iteration, capped.
    pub open spec fn exponent(self) -> nat {
        if self.i <= self.max_exponent {
            self.i as nat
        } else {
            self.max_exponent as nat
        }
    }

    /// The next wait without its noise.
    pub open spec fn base_wait(self) -> nat {
        (self.wait * pow2(self.exponent())) as nat
    }

    /// Whether the next step can be taken without a number leaving its type, whatever the
    /// noise turns out to be. A backoff that is used up can always be stepped: nothing is
    /// computed then.
    pub open spec fn can_step(self) -> bool {
        self.exhausted() || {
            &&& self.randomness > 0
            &&& self.i < usize::MAX
            &&& pow2(self.exponent()) <= usize::MAX
            &&& self.base_wait() + self.randomness - 1 <= usize::MAX
            &&& self.sleep_until + self.base_wait() + self.randomness - 1 <= u64::MAX
        }
    }

    /// The backoff after one step whose noise was `jitter`.
    pub open spec fn advanced(self, jitter: nat) -> BackoffView {
        BackoffView {
            i: (self.i + 1) as usize,
            sleep_until: (self.sleep_until + self.base_wait() + jitter) as u64,
            ..self
        }
    }
}

/// A schedule of tries that lie further and further apart.
#[derive(Clone, Copy, Debug)]
pub struct Backoff {
    max_exponent: usize,
    max_retries: Option<usize>,
    wait: usize,
    randomness: usize,
    i: usize,
    sleep_until: u64,
}

impl View for Backoff {
    type V = BackoffView;

    closed spec fn view(&self) -> BackoffView {
        BackoffView {
            max_exponent: self.max_exponent,
            max_retries: self.max_retries,
            wait: self.wait,
            randomness: self.randomness,
            i: self.i,
            sleep_until: self.sleep_until,
        }
    }
}

/// `rand::thread_rng()` and `Rng::gen_range` on the range from 0 up to, not including,
/// `bound`. The number is drawn afresh on every call: all that is claimed of it is that it
/// lies in the range. An empty range, on which `gen_range` panics, is left out; that the
/// system can seed the generator is taken for granted.
#[verifier::external_body]
fn random_below(bound: usize) -> (n: usize)
    requires
        bound > 0,
    ensures
        n < bound,
{
    rand::thread_rng().gen_range(0..bound)
}

/// Two to the power of `e`, where that fits.
fn power_of_two(e: usize) -> (power: Option<usize>)
    ensures
        match power {
            Some(p) => p == pow2(e as nat),
            None => pow2(e as nat) > usize::MAX,
        },
{
    let mut p: usize = 1;
    let mut k: usize = 0;
    proof {
        lemma_pow2_unfold(1);
        assert(pow2(0) == 1) by {
            vstd::arithmetic::power2::lemma2_to64();
        }
    }
    while k < e
        invariant
            k <= e,
            p == pow2(k as nat),
            p >= 1,
        decreases e - k,
    {
        proof {
            lemma_pow2_unfold((k + 1) as nat);
        }
        if p > usize::MAX / 2 {
            proof {
                if k + 1 < e {
                    lemma_pow2_strictly_increases((k + 1) as nat, e as nat);
                }
            }
            return None;
        }
        p = p * 2;
        k += 1;
    }
    Some(p)
}

impl Backoff {
    /// A backoff that starts at `now`.
    pub fn new(
        max_exponent: usize,
        max_retries: Option<usize>,
        wait: usize,
        randomness: usize,
        now: u64,
    ) -> (backoff: Backoff)
        ensures
            backoff@ == (BackoffView {
                max_exponent,
                max_retries,
                wait,
                randomness,
                i: 0,
                sleep_until: now,
            }),
    {
        Backoff { max_exponent, max_retries, wait, randomness, i: 0, sleep_until: now }
    }

    /// A backoff that starts at `now` in its iteration `i`.
    pub fn new_at(
        max_exponent: usize,
        max_retries: Option<usize>,
        wait: usize,
        randomness: usize,
        i: usize,
        now: u64,
    ) -> (backoff: Backoff)
        ensures
            backoff@ == (BackoffView {
                max_exponent,
                max_retries,
                wait,
                randomness,
                i,
                sleep_until: now,
            }),
    {
        Backoff { max_exponent, max_retries, wait, randomness, i, sleep_until: now }
    }

    /// The backoff of a caller that never gives up: waits of one second, doubled up to eight
    /// times, with up to a second of noise.
    pub fn default_infinite(now: u64) -> (backoff: Backoff)
        ensures
            backoff@ == (BackoffView {
                max_exponent: 8,
                max_retries: None,
                wait: 1000,
                randomness: 1000,
                i: 0,
                sleep_until: now,
            }),
    {
        Backoff::new(8, None, 1000, 1000, now)
    }

    /// The usual backoff: waits of one second, doubled up to five times, with up to a second
    /// of noise, and no more than sixteen retries.
    pub fn default_at(now: u64) -> (backoff: Backoff)
        ensures
            backoff@ == (BackoffView {
                max_exponent: 5,
                max_retries: Some(16usize),
                wait: 1000,
                randomness: 1000,
                i: 0,
                sleep_until: now,
            }),
    {
        Backoff::new(5, Some(16), 1000, 1000, now)
    }

    /// The iteration that the backoff is in.
    pub fn tick_index(&self) -> (i: usize)
        ensures
            i == self@.i,
    {
        self.i
    }

    /// Whether every try has been used up.
    pub fn is_exhausted(&self) -> (exhausted: bool)
        ensures
            exhausted == self@.exhausted(),
    {
        match self.max_retries {
            Some(retries) => self.i > retries,
            None => false,
        }
    }

    /// Whether the next step can be taken without a number leaving its type.
    pub fn can_step(&self) -> (can: bool)
        ensures
            can == self@.can_step(),
    {
        if self.is_exhausted() {
            return true;
        }
        if self.randomness == 0 || self.i == usize::MAX {
            return false;
        }
        let exponent = if self.i <= self.max_exponent {
            self.i
        } else {
            self.max_exponent
        };
        let factor = match power_of_two(exponent) {
            Some(factor) => factor,
            None => {
                return false;
            },
        };
        assert(self.wait * factor <= 0xffff_ffff_ffff_ffff * 0xffff_ffff_ffff_ffff)
            by (nonlinear_arith)
            requires
                0 <= self.wait <= 0xffff_ffff_ffff_ffff,
                0 <= factor <= 0xffff_ffff_ffff_ffff,
        ;
        let base: u128 = self.wait as u128 * factor as u128;
        assert(base == self@.base_wait());
        let longest: u128 = base + (self.randomness - 1) as u128;
        longest <= usize::MAX as u128 && self.sleep_until as u128 + longest <= u64::MAX as u128
    }

    /// Takes one step with the noise `jitter`: the next try lies the base wait, doubled once
    /// for every step taken so far up to the cap, and the noise after the last one. Hands
    /// back the time of the next try, or `None`, with nothing changed, where every try has
    /// been used up.
    pub fn advance(&mut self, jitter: usize) -> (next: Option<u64>)
        requires
            old(self)@.can_step(),
            jitter < old(self)@.randomness || old(self)@.exhausted(),
        ensures
            old(self)@.exhausted() ==> next is None && final(self)@ == old(self)@,
            !old(self)@.exhausted() ==> final(self)@ == old(self)@.advanced(jitter as nat)
                && next == Some(final(self)@.sleep_until),
    {
        if self.is_exhausted() {
            return None;
        }
        let exponent = if self.i <= self.max_exponent {
            self.i
        } else {
            self.max_exponent
        };
        let factor = power_of_two(exponent).unwrap();
        assert(self.wait * factor == self@.base_wait());
        let next_wait = self.wait * factor + jitter;
        self.sleep_until = self.sleep_until + next_wait as u64;
        self.i = self.i + 1;
        Some(self.sleep_until)
    }

    /// Returns the time of the next backoff tick. Does not wait.
    ///
    /// Returns `None` if the index is greater than `max_retries`. The noise is drawn at
    /// random: the next try lies somewhere in the span that the noise allows.
    pub fn step(&mut self) -> (next: Option<u64>)
        requires
            old(self)@.can_step(),
        ensures
            old(self)@.exhausted() ==> next is None && final(self)@ == old(self)@,
            !old(self)@.exhausted() ==> next == Some(final(self)@.sleep_until) && exists|
                jitter: nat,
            |
                jitter < old(self)@.randomness && final(self)@ == #[trigger] old(self)@.advanced(
                    jitter,
                ),
    {
        if self.is_exhausted() {
            return None;
        }
        let jitter = random_below(self.randomness);
        self.advance(jitter)
    }

    /// Takes the next backoff tick: hands back the time to wait for before the tick counts,
    /// which is the time that the step before set, and moves on to the next iteration.
    ///
    /// Returns `None` if the index is greater than `max_retries`.
    pub fn tick(&mut self) -> (wake: Option<u64>)
        requires
            old(self)@.can_step(),
        ensures
            old(self)@.exhausted() ==> wake is None && final(self)@ == old(self)@,
            !old(self)@.exhausted() ==> wake == Some(old(self)@.sleep_until) && exists|
                jitter: nat,
            |
                jitter < old(self)@.randomness && final(self)@ == #[trigger] old(self)@.advanced(
                    jitter,
                ),
    {
        let wake = self.sleep_until;
        match self.step() {
            Some(_) => Some(wake),
            None => None,
        }
    }
}

} // verus!
