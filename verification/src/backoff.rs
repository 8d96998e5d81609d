use vstd::prelude::*;

verus! {

/// Delay before the first retry, in microseconds.
pub const BACKOFF_FLOOR_MICROS: u64 = 125;

/// Largest delay between retries, in microseconds (five seconds).
pub const BACKOFF_CAP_MICROS: u64 = 5_000_000;

/// Exponential backoff for one supervisor run.
///
/// The delay starts at the floor, doubles after every consecutive retryable
/// failure, and never exceeds the cap.  Nothing resets it within one run: a
/// fresh value is made only when a supervisor task is started.
#[derive(Clone, Copy, PartialEq, Eq, Structural, Debug)]
pub struct Backoff {
    pub delay_micros: u64,
}

/// What one doubling step yields: twice the delay, capped.
pub open spec fn next_delay(d: u64) -> u64 {
    if 2 * d <= BACKOFF_CAP_MICROS {
        (2 * d) as u64
    } else {
        BACKOFF_CAP_MICROS
    }
}

/// The delay prescribed after `n` consecutive retryable failures.
pub open spec fn delay_after(n: nat) -> u64
    decreases n,
{
    if n == 0 {
        BACKOFF_FLOOR_MICROS
    } else {
        next_delay(delay_after((n - 1) as nat))
    }
}

/// Two to the power `n`.
pub open spec fn pow2(n: nat) -> nat
    decreases n,
{
    if n == 0 {
        1
    } else {
        2 * pow2((n - 1) as nat)
    }
}

impl Backoff {
    /// The bounds every backoff value keeps.
    pub open spec fn well_formed(self) -> bool {
        BACKOFF_FLOOR_MICROS <= self.delay_micros <= BACKOFF_CAP_MICROS
    }

    /// A fresh backoff, ready to wait the floor delay.
    pub fn new() -> (b: Backoff)
        ensures
            b.well_formed(),
            b.delay_micros == BACKOFF_FLOOR_MICROS,
    {
        Backoff { delay_micros: BACKOFF_FLOOR_MICROS }
    }

    /// The delay to sleep before the next attempt.
    pub fn current(&self) -> (d: u64)
        ensures
            d == self.delay_micros,
    {
        self.delay_micros
    }

    /// Doubles the delay, capped; called after each retryable failure.
    pub fn advance(&mut self)
        requires
            old(self).well_formed(),
        ensures
            final(self).well_formed(),
            final(self).delay_micros == next_delay(old(self).delay_micros),
            old(self).delay_micros <= final(self).delay_micros,
    {
        if self.delay_micros <= BACKOFF_CAP_MICROS / 2 {
            self.delay_micros = self.delay_micros * 2;
        } else {
            self.delay_micros = BACKOFF_CAP_MICROS;
        }
    }
}

/// The backoff schedule in closed form: after `n` consecutive retryable
/// failures the delay is the floor doubled `n` times, capped at five seconds.
/// It stays within its bounds and is monotonically non-decreasing in `n`.
pub proof fn lemma_backoff_schedule(n: nat)
    ensures
        BACKOFF_FLOOR_MICROS <= delay_after(n) <= BACKOFF_CAP_MICROS,
        delay_after(n) <= delay_after(n + 1),
        delay_after(n) == if BACKOFF_FLOOR_MICROS * pow2(n) <= BACKOFF_CAP_MICROS {
            BACKOFF_FLOOR_MICROS * pow2(n)
        } else {
            BACKOFF_CAP_MICROS as int
        },
    decreases n,
{
    if n == 0 {
    } else {
        let m = (n - 1) as nat;
        lemma_backoff_schedule(m);
        assert(pow2(n) == 2 * pow2(m));
        assert(BACKOFF_FLOOR_MICROS * pow2(n) == 2 * (BACKOFF_FLOOR_MICROS * pow2(m)))
            by (nonlinear_arith)
            requires
                pow2(n) == 2 * pow2(m),
        ;
    }
}

} // verus!
