//! The reconnect policy of the upstream subscription.
//!
//! After a failure the subscriber sleeps for the current delay and doubles
//! it, up to a ceiling; a success resets the delay. The policy never gives up.

use vstd::prelude::*;

verus! {

/// The delay before the first reconnect, in seconds.
pub const INITIAL_DELAY_SECS: u64 = 1;

/// The longest delay between reconnects, in seconds.
pub const MAX_DELAY_SECS: u64 = 30;

/// The delay that follows `delay` after one more failure: twice as long, but
/// no longer than the ceiling.
pub open spec fn next_delay(delay: nat) -> nat {
    if 2 * delay < MAX_DELAY_SECS {
        2 * delay
    } else {
        MAX_DELAY_SECS as nat
    }
}

/// The delay after one more event: lengthened by a failure, reset by a
/// success.
pub open spec fn delay_after_event(delay: nat, failed: bool) -> nat {
    if failed {
        next_delay(delay)
    } else {
        INITIAL_DELAY_SECS as nat
    }
}

/// The delay after a run of events, given as whether each was a failure,
/// oldest first.
pub open spec fn delay_after_events(delay: nat, failed: Seq<bool>) -> nat
    decreases failed.len(),
{
    if failed.len() == 0 {
        delay
    } else {
        delay_after_event(delay_after_events(delay, failed.drop_last()), failed.last())
    }
}

/// The delay that is slept at the next failure when `failures` failures in a
/// row have gone before it, counted from a fresh policy or from the last
/// success.
pub open spec fn delay_after_failures(failures: nat) -> nat
    decreases failures,
{
    if failures == 0 {
        INITIAL_DELAY_SECS as nat
    } else {
        next_delay(delay_after_failures((failures - 1) as nat))
    }
}

/// A run of `count` failures.
pub open spec fn failures_in_a_row(count: nat) -> Seq<bool> {
    Seq::new(count, |i: int| true)
}

/// The state of the reconnect policy: the delay to sleep at the next failure.
#[derive(Debug, Clone, Copy, PartialEq, Eq)]
pub struct Backoff {
    delay_secs: u64,
}

impl View for Backoff {
    type V = nat;

    closed spec fn view(&self) -> nat {
        self.delay_secs as nat
    }
}

impl Backoff {
    /// The delay lies between the initial delay and the ceiling.
    pub open spec fn well_formed(&self) -> bool {
        INITIAL_DELAY_SECS <= self@ <= MAX_DELAY_SECS
    }

    /// A fresh policy, at the initial delay.
    pub fn new() -> (backoff: Backoff)
        ensures
            backoff@ == INITIAL_DELAY_SECS,
            backoff.well_formed(),
    {
        Backoff { delay_secs: INITIAL_DELAY_SECS }
    }

    /// The delay to sleep at the next failure, in seconds.
    pub fn delay_secs(&self) -> (delay: u64)
        ensures
            delay == self@,
    {
        self.delay_secs
    }

    /// Takes a success: the delay goes back to the initial delay.
    pub fn succeed(&mut self)
        ensures
            final(self)@ == delay_after_event(old(self)@, false),
            final(self).well_formed(),
    {
        self.delay_secs = INITIAL_DELAY_SECS;
    }

    /// Takes a failure: gives the seconds to sleep before the next attempt,
    /// which is the current delay, and lengthens the delay for the failure
    /// after this one.
    pub fn fail(&mut self) -> (sleep_secs: u64)
        ensures
            sleep_secs == old(self)@,
            final(self)@ == delay_after_event(old(self)@, true),
            old(self).well_formed() ==> final(self).well_formed(),
    {
        let sleep_secs = self.delay_secs;
        self.delay_secs = if sleep_secs >= MAX_DELAY_SECS / 2 {
            MAX_DELAY_SECS
        } else {
            sleep_secs * 2
        };
        sleep_secs
    }
}

/// The delays slept at failures in a row are 1, 2, 4, 8, 16 and then 30
/// seconds for ever.
pub proof fn lemma_delay_sequence()
    ensures
        delay_after_failures(0) == 1,
        delay_after_failures(1) == 2,
        delay_after_failures(2) == 4,
        delay_after_failures(3) == 8,
        delay_after_failures(4) == 16,
        forall|failures: nat| failures >= 5 ==> #[trigger] delay_after_failures(failures) == 30,
{
    reveal_with_fuel(delay_after_failures, 6);
    assert forall|failures: nat| failures >= 5 implies #[trigger] delay_after_failures(failures)
        == 30 by {
        lemma_delay_stays_at_ceiling(failures);
    }
}

/// From the fifth failure in a row on, the delay is the ceiling.
proof fn lemma_delay_stays_at_ceiling(failures: nat)
    requires
        failures >= 5,
    ensures
        delay_after_failures(failures) == 30,
    decreases failures,
{
    if failures == 5 {
        reveal_with_fuel(delay_after_failures, 6);
    } else {
        lemma_delay_stays_at_ceiling((failures - 1) as nat);
    }
}

/// Delays never shrink while failures go on, and never pass the ceiling.
pub proof fn lemma_delays_grow_to_ceiling(failures: nat)
    ensures
        1 <= delay_after_failures(failures) <= delay_after_failures(failures + 1) <= 30,
    decreases failures,
{
    reveal_with_fuel(delay_after_failures, 2);
    if failures > 0 {
        lemma_delays_grow_to_ceiling((failures - 1) as nat);
    }
}

/// Whatever went before, a success followed by failures in a row leaves the
/// delay that the number of those failures alone gives.
pub proof fn lemma_delay_since_success(delay: nat, history: Seq<bool>, failures: nat)
    ensures
        delay_after_events(delay, history.push(false) + failures_in_a_row(failures))
            == delay_after_failures(failures),
    decreases failures,
{
    let events = history.push(false) + failures_in_a_row(failures);
    if failures == 0 {
        assert(events == history.push(false));
        assert(events.drop_last() == history);
    } else {
        let fewer = (failures - 1) as nat;
        assert(events.drop_last() == history.push(false) + failures_in_a_row(fewer));
        lemma_delay_since_success(delay, history, fewer);
    }
}

/// A fresh policy that meets failures in a row has the delay that their
/// number gives.
pub proof fn lemma_delay_from_fresh(failures: nat)
    ensures
        delay_after_events(INITIAL_DELAY_SECS as nat, failures_in_a_row(failures))
            == delay_after_failures(failures),
    decreases failures,
{
    let events = failures_in_a_row(failures);
    if failures > 0 {
        let fewer = (failures - 1) as nat;
        assert(events.drop_last() == failures_in_a_row(fewer));
        lemma_delay_from_fresh(fewer);
    }
}

} // verus!
