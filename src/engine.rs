use vstd::prelude::*;
use crate::draw::RandomT;

verus! {

/// The seed used when the wall clock cannot give a time after the Unix epoch.
pub const FALLBACK_SEED: u64 = 6123;

/// The xorshift recurrence applied to a word.
pub open spec fn xorshift(x: u64) -> u64 {
    let y = x ^ (x << 7u64);
    y ^ (y >> 9u64)
}

/// The state that follows `s`: increment by one (wrapping), then xorshift.
/// It is also the raw word that this draw hands out.
pub open spec fn next_state(s: u64) -> u64 {
    xorshift((s + 1) as u64)
}

/// The state reached from `s` after `n` draws.
pub open spec fn advance(s: u64, n: nat) -> u64
    decreases n,
{
    if n == 0 {
        s
    } else {
        advance(next_state(s), (n - 1) as nat)
    }
}

/// One draw moves the state to its successor.
pub proof fn lemma_advance_one(s: u64)
    ensures
        advance(s, 1) == next_state(s),
{
    assert(advance(next_state(s), 0) == next_state(s));
}

/// Drawing `m` times and then `n` times is drawing `m + n` times.
pub proof fn lemma_advance_add(s: u64, m: nat, n: nat)
    ensures
        advance(s, m + n) == advance(advance(s, m), n),
    decreases m,
{
    if m > 0 {
        lemma_advance_add(next_state(s), (m - 1) as nat, n);
        assert((m + n - 1) as nat == (m - 1) as nat + n);
    }
}

/// The engine's step always changes the state: it has no fixed point.
pub proof fn lemma_next_state_moves(s: u64)
    ensures
        next_state(s) != s,
{
    let x = (s + 1) as u64;
    let y = x ^ (x << 7u64);
    assert(y ^ (y >> 9u64) != s) by (bit_vector)
        requires
            x == (s + 1) as u64,
            y == x ^ (x << 7u64),
    ;
}

proof fn lemma_wrapping_increment(s: u64)
    ensures
        s.wrapping_add(1) == (s + 1) as u64,
{
    if s == u64::MAX {
        assert(s == 0xffff_ffff_ffff_ffffu64 ==> (s + 1) as u64 == 0) by (bit_vector);
    }
}

/// A pseudo-random engine: one 64-bit state word advanced by an xorshift step.
pub struct Random {
    state: u64,
}

impl View for Random {
    type V = u64;

    closed spec fn view(&self) -> u64 {
        self.state
    }
}

#[verifier::external_type_specification]
#[verifier::external_body]
pub struct ExSystemTime(std::time::SystemTime);

#[verifier::external_type_specification]
#[verifier::external_body]
pub struct ExSystemTimeError(std::time::SystemTimeError);

/// Relies on std::time::SystemTime::now: reads the wall clock. Nothing is
/// promised of the reading.
pub assume_specification[ std::time::SystemTime::now ]() -> std::time::SystemTime;

/// Relies on std::time::SystemTime::duration_since: the time elapsed since
/// `earlier`, or an error where `earlier` is later. Nothing is promised of
/// which of the two comes back.
pub assume_specification[ std::time::SystemTime::duration_since ](
    t: &std::time::SystemTime,
    earlier: std::time::SystemTime,
) -> Result<core::time::Duration, std::time::SystemTimeError>;

/// Relies on core::time::Duration::as_secs: the whole seconds of a duration.
pub assume_specification[ core::time::Duration::as_secs ](d: &core::time::Duration) -> u64;

/// Relies on std::time::UNIX_EPOCH: the reference point of wall-clock seconds.
#[verifier::external_body]
fn unix_epoch() -> std::time::SystemTime {
    std::time::UNIX_EPOCH
}

/// Whole seconds since the Unix epoch by the wall clock, or `None` where the
/// clock reads a time before it.
fn epoch_secs() -> Option<u64> {
    let now = std::time::SystemTime::now();
    match now.duration_since(unix_epoch()) {
        Ok(d) => Some(d.as_secs()),
        Err(_) => None,
    }
}

impl Random {
    /// An engine whose state is `seed`.
    pub fn seed(seed: u64) -> (r: Self)
        ensures
            r@ == seed,
    {
        Random { state: seed }
    }

    /// An engine seeded from a clock reading: the seconds where there are
    /// some, the fallback seed where the clock gave none.
    pub fn from_clock(secs: Option<u64>) -> (r: Self)
        ensures
            r@ == match secs {
                Some(s) => s,
                None => FALLBACK_SEED,
            },
    {
        match secs {
            Some(s) => Self::seed(s),
            None => Self::seed(FALLBACK_SEED),
        }
    }

    /// An engine seeded with the seconds since the Unix epoch, or with the
    /// fallback seed where the clock reads earlier. Not reproducible.
    pub fn new() -> (r: Self) {
        Self::from_clock(epoch_secs())
    }

    /// A second engine in the same state, for a draw that must leave this
    /// one as it is.
    pub(crate) fn fork(&self) -> (r: Self)
        ensures
            r@ == self@,
    {
        Random { state: self.state }
    }

    /// Advances the state by one step and hands out the new state word.
    pub(crate) fn next(&mut self) -> (w: u64)
        ensures
            w == next_state(old(self)@),
            final(self)@ == w,
            final(self)@ == advance(old(self)@, 1),
    {
        proof {
            lemma_wrapping_increment(self.state);
            lemma_advance_one(self.state);
        }
        let x = self.state.wrapping_add(1);
        let y = x ^ (x << 7u64);
        self.state = y ^ (y >> 9u64);
        self.state
    }

    /// Draws one value of `T`.
    pub fn get<T: RandomT>(&mut self) -> (v: T)
        ensures
            v == T::drawn(old(self)@),
            final(self)@ == advance(old(self)@, T::draw_count()),
    {
        T::random(self)
    }
}

} // verus!
