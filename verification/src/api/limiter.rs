//! The sliding-window limit on public authentication attempts.

use std::collections::VecDeque;
use vstd::prelude::*;

verus! {

/// How many attempts are admitted in a window.
pub const MAXIMUM: usize = 120;

/// The length of the window in nanoseconds: one minute.
pub const WINDOW: u64 = 60_000_000_000;

/// Attempts without those at the front that the window has passed.
pub open spec fn pruned(attempts: Seq<u64>, now: u64) -> Seq<u64>
    decreases attempts.len(),
{
    if attempts.len() > 0 && now - attempts[0] >= WINDOW {
        pruned(attempts.drop_first(), now)
    } else {
        attempts
    }
}

/// The attempts that are remembered after one at `now`, and whether that one is admitted.
pub open spec fn step(attempts: Seq<u64>, now: u64) -> (Seq<u64>, bool) {
    let recent = pruned(attempts, now);
    if recent.len() >= MAXIMUM {
        (recent, false)
    } else {
        (recent.push(now), true)
    }
}

/// Bounded sliding-window limiter for public authentication endpoints. Moments are nanoseconds of a
/// clock that does not go back.
pub struct AuthRateLimiter {
    attempts: VecDeque<u64>,
}

impl Default for AuthRateLimiter {
    fn default() -> (limiter: AuthRateLimiter)
        ensures
            limiter@ == Seq::<u64>::empty(),
    {
        AuthRateLimiter { attempts: VecDeque::new() }
    }
}

impl AuthRateLimiter {
    /// The attempts that are remembered.
    pub closed spec fn view(&self) -> Seq<u64> {
        self.attempts@
    }

    /// Whether an attempt at `now` is admitted.
    pub fn try_admit(&mut self, now: u64) -> (admitted: bool)
        ensures
            (final(self)@, admitted) == step(old(self)@, now),
    {
        let ghost start = self.attempts@;
        while self.attempts.len() > 0 && now >= self.attempts[0] && now - self.attempts[0] >= WINDOW
            invariant
                pruned(self.attempts@, now) == pruned(start, now),
            decreases self.attempts@.len(),
        {
            let ghost before = self.attempts@;
            self.attempts.pop_front();
            assert(self.attempts@ =~= before.drop_first());
        }
        if self.attempts.len() >= MAXIMUM {
            return false;
        }
        self.attempts.push_back(now);
        true
    }
}

// ------------------------------------------------------------------------------------------------
// Laws

/// The attempts that are remembered after all of `times`, and the times that were admitted.
pub open spec fn run(times: Seq<u64>) -> (Seq<u64>, Seq<u64>)
    decreases times.len(),
{
    if times.len() == 0 {
        (Seq::empty(), Seq::empty())
    } else {
        let (attempts, admitted) = run(times.drop_last());
        let (next, ok) = step(attempts, times.last());
        (
            next,
            if ok {
                admitted.push(times.last())
            } else {
                admitted
            },
        )
    }
}

/// Whether times do not go back.
pub open spec fn in_time_order(times: Seq<u64>) -> bool {
    forall|i: int, j: int| 0 <= i <= j < times.len() ==> times[i] <= times[j]
}

proof fn lemma_pruned(attempts: Seq<u64>, now: u64)
    ensures
        pruned(attempts, now).len() <= attempts.len(),
        pruned(attempts, now) == attempts.skip(attempts.len() - pruned(attempts, now).len()),
        forall|i: int|
            0 <= i < attempts.len() - pruned(attempts, now).len() ==> now - #[trigger] attempts[i]
                >= WINDOW,
    decreases attempts.len(),
{
    if attempts.len() > 0 && now - attempts[0] >= WINDOW {
        let rest = attempts.drop_first();
        lemma_pruned(rest, now);
        assert(pruned(attempts, now) =~= attempts.skip(
            attempts.len() - pruned(attempts, now).len(),
        ));
        assert forall|i: int| 0 <= i < attempts.len() - pruned(attempts, now).len() implies now
            - #[trigger] attempts[i] >= WINDOW by {
            if i > 0 {
                assert(rest[i - 1] == attempts[i]);
            }
        }
    } else {
        assert(attempts.skip(0) =~= attempts);
    }
}

proof fn lemma_run(times: Seq<u64>)
    requires
        in_time_order(times),
    ensures
        ({
            let (attempts, admitted) = run(times);
            &&& attempts.len() <= admitted.len()
            &&& attempts.len() <= MAXIMUM
            &&& attempts == admitted.skip(admitted.len() - attempts.len())
            &&& forall|i: int|
                0 <= i < admitted.len() - attempts.len() ==> times.last() - #[trigger] admitted[i]
                    >= WINDOW
            &&& forall|i: int|
                0 <= i && i + MAXIMUM < admitted.len() ==> #[trigger] admitted[i] + WINDOW
                    <= admitted[i + MAXIMUM]
        }),
    decreases times.len(),
{
    if times.len() > 0 {
        let now = times.last();
        let before = times.drop_last();
        assert(in_time_order(before)) by {
            assert forall|i: int, j: int| 0 <= i <= j < before.len() implies before[i] <= before[j] by {
                assert(times[i] <= times[j]);
            }
        }
        lemma_run(before);
        let (attempts, admitted) = run(before);
        lemma_pruned(attempts, now);
        let recent = pruned(attempts, now);
        let (next, next_admitted) = run(times);
        assert(recent =~= admitted.skip(admitted.len() - recent.len()));
        assert forall|i: int| 0 <= i < admitted.len() - recent.len() implies now
            - #[trigger] admitted[i] >= WINDOW by {
            if i < admitted.len() - attempts.len() {
                assert(before.len() > 0);
                assert(before.last() - admitted[i] >= WINDOW);
                assert(times[times.len() - 2] <= times[times.len() - 1]);
            } else {
                let j = i - (admitted.len() - attempts.len());
                assert(attempts[j] == admitted[i]);
            }
        }
        if recent.len() < MAXIMUM {
            assert(next =~= next_admitted.skip(next_admitted.len() - next.len()));
            assert forall|i: int| 0 <= i && i + MAXIMUM < next_admitted.len() implies #[trigger]
                next_admitted[i] + WINDOW <= next_admitted[i + MAXIMUM] by {
                if i + MAXIMUM < admitted.len() {
                    assert(admitted[i] + WINDOW <= admitted[i + MAXIMUM]);
                } else {
                    assert(i < admitted.len() - recent.len());
                    assert(now - admitted[i] >= WINDOW);
                }
            }
        }
    } else {
        assert(Seq::<u64>::empty().skip(0) =~= Seq::<u64>::empty());
    }
}

/// Whatever attempts come, in any window at most the maximum are admitted: of the admitted ones, two
/// that lie the maximum apart in their order lie at least a window apart in time.
pub proof fn law_a_window_admits_at_most_the_maximum(times: Seq<u64>, i: int)
    requires
        in_time_order(times),
        0 <= i,
        i + MAXIMUM < run(times).1.len(),
    ensures
        run(times).1[i] + WINDOW <= run(times).1[i + MAXIMUM],
{
    lemma_run(times);
}

/// An attempt is refused only where the window is full: that many attempts were admitted in it.
pub proof fn law_refusal_means_a_full_window(attempts: Seq<u64>, now: u64)
    requires
        !step(attempts, now).1,
        in_time_order(attempts),
    ensures
        step(attempts, now).0.len() >= MAXIMUM,
        forall|i: int|
            0 <= i < step(attempts, now).0.len() ==> now - #[trigger] step(attempts, now).0[i]
                < WINDOW,
{
    lemma_pruned_recent(attempts, now);
}

proof fn lemma_pruned_recent(attempts: Seq<u64>, now: u64)
    requires
        in_time_order(attempts),
    ensures
        forall|i: int|
            0 <= i < pruned(attempts, now).len() ==> now - #[trigger] pruned(attempts, now)[i]
                < WINDOW,
    decreases attempts.len(),
{
    if attempts.len() > 0 {
        if now - attempts[0] >= WINDOW {
            let rest = attempts.drop_first();
            assert(in_time_order(rest)) by {
                assert forall|i: int, j: int| 0 <= i <= j < rest.len() implies rest[i] <= rest[j] by {
                    assert(attempts[i + 1] <= attempts[j + 1]);
                }
            }
            lemma_pruned_recent(rest, now);
            assert(pruned(attempts, now) == pruned(rest, now));
        } else {
            assert(pruned(attempts, now) == attempts);
            assert forall|i: int| 0 <= i < attempts.len() implies now - #[trigger] attempts[i]
                < WINDOW by {
                assert(attempts[0] <= attempts[i]);
            }
        }
    }
}

/// An attempt is admitted just where fewer than 120 were admitted in the minute before it: it does not matter
/// how many there were before that.
pub proof fn law_an_attempt_is_admitted_where_there_is_room(attempts: Seq<u64>, now: u64)
    requires
        in_time_order(attempts),
    ensures
        step(attempts, now).1 <==> attempts.len() < 120 || now - attempts[attempts.len() - 120]
            >= 60_000_000_000,
        step(attempts, now).1 ==> step(attempts, now).0.last() == now,
{
    lemma_pruned(attempts, now);
    lemma_pruned_recent(attempts, now);
    let recent = pruned(attempts, now);
    let k = attempts.len() - recent.len();
    if attempts.len() >= 120 {
        let i = attempts.len() - 120;
        if recent.len() >= 120 {
            assert(recent[i - k] == attempts[i]);
        } else {
            assert(k > 0);
            lemma_pruned_old(attempts, now, i);
        }
    }
}

/// What is no longer remembered is a minute old or older.
proof fn lemma_pruned_old(attempts: Seq<u64>, now: u64, i: int)
    requires
        0 <= i < attempts.len() - pruned(attempts, now).len(),
    ensures
        now - attempts[i] >= WINDOW,
    decreases attempts.len(),
{
    if i > 0 {
        let rest = attempts.drop_first();
        lemma_pruned_old(rest, now, i - 1);
        assert(rest[i - 1] == attempts[i]);
    }
}

} // verus!
