//! Deciding whether a failed call is tried again.

use crate::error::SentinelError;
use vstd::arithmetic::power2::pow2;
use vstd::prelude::*;

verus! {

/// What to do once an attempt has ended.
#[derive(Debug)]
pub enum Step<T> {
    /// Stop, with this outcome.
    Finish(Result<T, SentinelError>),
    /// Try again after this many milliseconds.
    RetryIn(u64),
}

/// Twice `wait`, or `u64::MAX` where twice is more.
pub open spec fn doubled(wait: u64) -> u64 {
    if 2 * wait > u64::MAX {
        u64::MAX
    } else {
        (2 * wait) as u64
    }
}

/// The waits between `attempts` attempts: `first` after the first failure, and
/// twice the last wait from then on.
pub open spec fn waits(attempts: nat, first: u64) -> Seq<u64>
    decreases attempts,
{
    if attempts <= 1 {
        Seq::empty()
    } else {
        seq![first] + waits((attempts - 1) as nat, doubled(first))
    }
}

/// What follows an attempt that ended in `outcome` with `remaining` waits to come,
/// and the waits to come then.
pub open spec fn step_after<T>(
    remaining: Seq<u64>,
    outcome: Result<T, SentinelError>,
) -> (Step<T>, Seq<u64>) {
    if outcome is Ok || remaining.len() == 0 {
        (Step::Finish(outcome), remaining)
    } else {
        (Step::RetryIn(remaining[0]), remaining.skip(1))
    }
}

/// What a call ends in whose attempts end in `outcomes`, one after the other, with
/// `remaining` waits to come; nothing if the outcomes run out before it ends.
pub open spec fn settled<T>(
    remaining: Seq<u64>,
    outcomes: Seq<Result<T, SentinelError>>,
) -> Option<Result<T, SentinelError>>
    decreases outcomes.len(),
{
    if outcomes.len() == 0 {
        None
    } else {
        match step_after(remaining, outcomes[0]) {
            (Step::Finish(outcome), _) => Some(outcome),
            (Step::RetryIn(_), later) => settled(later, outcomes.skip(1)),
        }
    }
}

/// The attempts that are left of a call with exponential backoff.
#[derive(Debug)]
pub struct Retry {
    attempts_left: u32,
    wait_ms: u64,
}

impl Retry {
    /// The waits, in milliseconds, that are still to come if every attempt fails.
    pub closed spec fn remaining(&self) -> Seq<u64> {
        waits(self.attempts_left as nat, self.wait_ms)
    }

    /// Plans up to `attempts` attempts, with `first_wait_ms` after the first failure.
    pub fn new(attempts: u32, first_wait_ms: u64) -> (retry: Self)
        ensures
            retry.remaining() == waits(attempts as nat, first_wait_ms),
    {
        Retry { attempts_left: attempts, wait_ms: first_wait_ms }
    }

    /// Decides what follows an attempt that ended in `outcome`. A success ends the
    /// call, and so does the failure of the last attempt, with that failure.
    pub fn after<T>(&mut self, outcome: Result<T, SentinelError>) -> (step: Step<T>)
        ensures
            (step, final(self).remaining()) == step_after(old(self).remaining(), outcome),
            if outcome is Ok || old(self).remaining().len() == 0 {
                &&& step == Step::Finish(outcome)
                &&& final(self).remaining() == old(self).remaining()
            } else {
                &&& step == Step::<T>::RetryIn(old(self).remaining()[0])
                &&& final(self).remaining() == old(self).remaining().skip(1)
            },
    {
        if outcome.is_ok() || self.attempts_left <= 1 {
            return Step::Finish(outcome);
        }
        let wait: u64 = self.wait_ms;
        self.attempts_left = self.attempts_left - 1;
        self.wait_ms = wait.saturating_add(wait);
        assert(self.remaining() =~= old(self).remaining().skip(1));
        Step::RetryIn(wait)
    }
}

/// A call that keeps failing is tried `attempts` times in all, and once where
/// `attempts` is zero: one wait stands between each attempt and the next.
pub proof fn law_attempts_are_bounded(attempts: nat, first: u64)
    ensures
        attempts >= 1 ==> waits(attempts, first).len() == attempts - 1,
        attempts == 0 ==> waits(attempts, first).len() == 0,
    decreases attempts,
{
    if attempts > 1 {
        law_attempts_are_bounded((attempts - 1) as nat, doubled(first));
    }
}

/// The waits grow exponentially: each is the first one times a power of two, up to
/// `u64::MAX`.
pub proof fn law_waits_are_exponential(attempts: nat, first: u64, i: nat)
    requires
        i + 1 < attempts,
    ensures
        i < waits(attempts, first).len(),
        first * pow2(i) <= u64::MAX ==> waits(attempts, first)[i as int] == first * pow2(i),
        first * pow2(i) > u64::MAX ==> waits(attempts, first)[i as int] == u64::MAX,
    decreases attempts,
{
    law_attempts_are_bounded(attempts, first);
    vstd::arithmetic::power2::lemma_pow2_pos(i);
    if i == 0 {
        vstd::arithmetic::power2::lemma2_to64();
        let p = pow2(i) as int;
        assert(first * p == first) by (nonlinear_arith)
            requires
                p == 1,
        ;
    } else {
        let before = (i - 1) as nat;
        law_waits_are_exponential((attempts - 1) as nat, doubled(first), before);
        vstd::arithmetic::power2::lemma_pow2_unfold(i);
        vstd::arithmetic::power2::lemma_pow2_pos(before);
        let p = pow2(before) as int;
        let f = first as int;
        assert(f * (2 * p) == (2 * f) * p) by (nonlinear_arith);
        assert(pow2(i) == 2 * p);
        assert(first * pow2(i) == (2 * f) * p);
        if 2 * first > u64::MAX {
            assert((2 * f) * p >= 2 * f) by (nonlinear_arith)
                requires
                    p >= 1,
                    f >= 0,
            ;
            let m = u64::MAX as int;
            assert(m * p >= m) by (nonlinear_arith)
                requires
                    p >= 1,
                    m >= 0,
            ;
            assert(doubled(first) * pow2(before) == m * p);
        } else {
            assert(doubled(first) * pow2(before) == (2 * f) * p);
        }
    }
}

/// Only the number of attempts decides how often is tried, and only the first wait
/// how long: with one attempt more there is one wait more, and the others stay.
pub proof fn law_one_attempt_more(attempts: nat, first: u64)
    requires
        attempts >= 1,
    ensures
        waits(attempts + 1, first).len() == waits(attempts, first).len() + 1,
        waits(attempts, first).is_prefix_of(waits(attempts + 1, first)),
        waits(attempts + 1, first)[0] == first,
    decreases attempts,
{
    reveal_with_fuel(waits, 3);
    if attempts > 1 {
        law_one_attempt_more((attempts - 1) as nat, doubled(first));
    }
    assert(waits(attempts, first) =~= waits(attempts + 1, first).take(
        waits(attempts, first).len() as int,
    ));
}

/// A call ends with its first success, if that comes within the planned attempts:
/// `n` is the attempt that succeeds, counted from zero.
pub proof fn law_first_success_ends_the_call<T>(
    attempts: nat,
    first: u64,
    outcomes: Seq<Result<T, SentinelError>>,
    n: int,
)
    requires
        0 <= n < outcomes.len(),
        n < attempts || n == 0,
        forall|i: int| 0 <= i < n ==> #[trigger] outcomes[i] is Err,
        outcomes[n] is Ok,
    ensures
        settled(waits(attempts, first), outcomes) == Some(outcomes[n]),
    decreases attempts,
{
    law_attempts_are_bounded(attempts, first);
    if n > 0 {
        let rest = outcomes.skip(1);
        assert(outcomes[0] is Err);
        assert(waits(attempts, first).skip(1) =~= waits((attempts - 1) as nat, doubled(first)));
        assert forall|i: int| 0 <= i < n - 1 implies #[trigger] rest[i] is Err by {
            assert(rest[i] == outcomes[i + 1]);
        }
        law_first_success_ends_the_call((attempts - 1) as nat, doubled(first), rest, n - 1);
    }
}

/// A call whose planned attempts all fail ends with the failure of the last of them,
/// and not before it.
pub proof fn law_last_failure_ends_the_call<T>(
    attempts: nat,
    first: u64,
    outcomes: Seq<Result<T, SentinelError>>,
)
    requires
        attempts >= 1,
        forall|i: int| 0 <= i < outcomes.len() ==> #[trigger] outcomes[i] is Err,
    ensures
        outcomes.len() >= attempts ==> settled(waits(attempts, first), outcomes) == Some(
            outcomes[attempts - 1],
        ),
        outcomes.len() < attempts ==> settled(waits(attempts, first), outcomes) is None,
    decreases attempts,
{
    law_attempts_are_bounded(attempts, first);
    if outcomes.len() > 0 && attempts > 1 {
        let rest = outcomes.skip(1);
        assert(outcomes[0] is Err);
        assert(waits(attempts, first).skip(1) =~= waits((attempts - 1) as nat, doubled(first)));
        assert forall|i: int| 0 <= i < rest.len() implies #[trigger] rest[i] is Err by {
            assert(rest[i] == outcomes[i + 1]);
        }
        law_last_failure_ends_the_call((attempts - 1) as nat, doubled(first), rest);
    } else if outcomes.len() > 0 {
        assert(outcomes[0] is Err);
    }
}

/// Before each further attempt the wait that comes next is waited, and then it is
/// gone.
pub proof fn law_waits_are_taken_in_order<T>(
    remaining: Seq<u64>,
    outcome: Result<T, SentinelError>,
)
    requires
        outcome is Err,
        remaining.len() > 0,
    ensures
        step_after(remaining, outcome).0 matches Step::RetryIn(wait) && seq![wait] + step_after(
            remaining,
            outcome,
        ).1 == remaining,
{
    assert(seq![remaining[0]] + remaining.skip(1) =~= remaining);
}

} // verus!
