//! The retry policy: after each attempt, decide whether to stop with
//! success, try again, or give up because the bounded budget ran out.
//!
//! A retry limit of zero selects infinite mode: the loop only ends on a
//! successful attempt. A limit of `K >= 1` allows `K` retries after the
//! first attempt, so at most `K + 1` attempts in all.

use vstd::prelude::*;

verus! {

/// The outcome of a whole run, driven by a script of attempt results:
/// `outcomes[i]` is true when attempt `i` succeeds. `None` means the
/// script ran out while the loop still wanted another attempt; `Some((n,
/// ok))` means the loop stopped after exactly `n` attempts, with `ok`
/// telling success from an exhausted budget.
pub open spec fn run(remaining: nat, is_infinite: bool, outcomes: Seq<bool>) -> Option<(nat, bool)>
    decreases outcomes.len(),
{
    if outcomes.len() == 0 {
        None
    } else if outcomes[0] {
        Some((1nat, true))
    } else if is_infinite {
        match run(remaining, is_infinite, outcomes.drop_first()) {
            None => None,
            Some((n, ok)) => Some(((n + 1) as nat, ok)),
        }
    } else if remaining == 0 {
        Some((1nat, false))
    } else {
        match run((remaining - 1) as nat, is_infinite, outcomes.drop_first()) {
            None => None,
            Some((n, ok)) => Some(((n + 1) as nat, ok)),
        }
    }
}

/// What the executor does next after one attempt has been judged.
#[derive(Debug, Clone, Copy, PartialEq, Eq, Structural)]
pub enum Next {
    /// The attempt succeeded; stop at once and report success.
    Done,
    /// The attempt failed and the policy allows another one.
    TryAgain,
    /// The attempt failed and the bounded budget is exhausted.
    Exhausted,
}

/// The mutable state of the retry loop: the countdown of retries still
/// allowed, and whether the loop retries forever instead.
#[derive(Debug, Clone, Copy, PartialEq, Eq, Structural)]
pub struct RetryState {
    /// Retries still allowed after the next failure, in bounded mode.
    pub remaining: usize,
    /// True when the configured limit was zero: retry until success.
    pub is_infinite: bool,
}

impl RetryState {
    /// The state the loop starts in for a configured limit of `times`:
    /// zero selects infinite mode.
    pub fn new(times: usize) -> (s: RetryState)
        ensures
            s.remaining == times,
            s.is_infinite == (times == 0),
    {
        RetryState { remaining: times, is_infinite: times == 0 }
    }

    /// Judge one finished attempt. Success stops the loop at once,
    /// whatever budget is left; in infinite mode a failure always
    /// allows another attempt and changes nothing; in bounded mode a
    /// failure consumes one retry, and when none is left the loop gives
    /// up.
    pub fn on_attempt(&mut self, succeeded: bool) -> (n: Next)
        ensures
            succeeded ==> n == Next::Done && *final(self) == *old(self),
            !succeeded && old(self).is_infinite ==> n == Next::TryAgain && *final(self) == *old(
                self,
            ),
            !succeeded && !old(self).is_infinite && old(self).remaining > 0 ==> n == Next::TryAgain
                && final(self).remaining == old(self).remaining - 1
                && final(self).is_infinite == old(self).is_infinite,
            !succeeded && !old(self).is_infinite && old(self).remaining == 0 ==> n
                == Next::Exhausted && *final(self) == *old(self),
    {
        if succeeded {
            Next::Done
        } else if self.is_infinite {
            Next::TryAgain
        } else if self.remaining > 0 {
            self.remaining = self.remaining - 1;
            Next::TryAgain
        } else {
            Next::Exhausted
        }
    }
}

/// Drive the retry loop over a script of attempt results, as the
/// executor would: attempt `i` succeeds exactly when `outcomes[i]` is
/// true. Returns how many attempts were made and whether the run ended
/// in success, or `None` when the script ran out with the loop still
/// retrying.
pub fn run_attempts(times: usize, outcomes: &Vec<bool>) -> (r: Option<(usize, bool)>)
    ensures
        (r is None <==> run(times as nat, times == 0, outcomes@) is None),
        r matches Some((n, ok)) ==> run(times as nat, times == 0, outcomes@) == Some(
            (n as nat, ok),
        ),
{
    let mut st = RetryState::new(times);
    let mut i: usize = 0;
    proof {
        assert(outcomes@.skip(0) =~= outcomes@);
    }
    while i < outcomes.len()
        invariant
            i <= outcomes.len(),
            st.is_infinite == (times == 0),
            match run(st.remaining as nat, st.is_infinite, outcomes@.skip(i as int)) {
                None => run(times as nat, times == 0, outcomes@) is None,
                Some((n, ok)) => run(times as nat, times == 0, outcomes@) == Some(
                    (n + i as nat, ok),
                ),
            },
        decreases outcomes.len() - i,
    {
        let succeeded = outcomes[i];
        proof {
            assert(outcomes@.skip(i as int)[0] == outcomes@[i as int]);
            assert(outcomes@.skip(i as int).drop_first() =~= outcomes@.skip(i as int + 1));
        }
        match st.on_attempt(succeeded) {
            Next::Done => {
                return Some((i + 1, true));
            },
            Next::TryAgain => {},
            Next::Exhausted => {
                return Some((i + 1, false));
            },
        }
        i = i + 1;
    }
    proof {
        assert(outcomes@.skip(i as int) =~= Seq::<bool>::empty());
    }
    None
}

/// In infinite mode the executor never gives up: after any number of
/// failed attempts it still wants another one, so an all-failure script
/// of any length leaves the loop running.
pub proof fn lemma_infinite_never_stops(remaining: nat, outcomes: Seq<bool>)
    requires
        forall|i: int| 0 <= i < outcomes.len() ==> !outcomes[i],
    ensures
        run(remaining, true, outcomes) is None,
    decreases outcomes.len(),
{
    if outcomes.len() > 0 {
        lemma_infinite_never_stops(remaining, outcomes.drop_first());
    }
}

/// In infinite mode the loop terminates only via success: whenever a
/// run stops at all, it stops because an attempt succeeded.
pub proof fn lemma_infinite_only_ends_in_success(remaining: nat, outcomes: Seq<bool>)
    ensures
        run(remaining, true, outcomes) matches Some((n, ok)) ==> ok,
    decreases outcomes.len(),
{
    if outcomes.len() > 0 && !outcomes[0] {
        lemma_infinite_only_ends_in_success(remaining, outcomes.drop_first());
    }
}

/// With a bounded budget of `k` retries and every attempt failing, the
/// executor makes exactly `k + 1` attempts and then gives up.
pub proof fn lemma_bounded_budget_exhausts(k: nat, outcomes: Seq<bool>)
    requires
        outcomes.len() >= k + 1,
        forall|i: int| 0 <= i <= k ==> !outcomes[i],
    ensures
        run(k, false, outcomes) == Some::<(nat, bool)>(((k + 1) as nat, false)),
    decreases k,
{
    if k > 0 {
        lemma_bounded_budget_exhausts((k - 1) as nat, outcomes.drop_first());
    }
}

/// The first successful attempt stops the loop at once: if attempt `i`
/// succeeds, every attempt before it failed, and the budget admits
/// attempt `i` at all, the run reports success after exactly `i + 1`
/// attempts, whatever budget is left over.
pub proof fn lemma_success_stops(remaining: nat, is_infinite: bool, outcomes: Seq<bool>, i: int)
    requires
        0 <= i < outcomes.len(),
        outcomes[i],
        forall|j: int| 0 <= j < i ==> !outcomes[j],
        is_infinite || i <= remaining,
    ensures
        run(remaining, is_infinite, outcomes) == Some::<(nat, bool)>(((i + 1) as nat, true)),
    decreases i,
{
    if i > 0 {
        if is_infinite {
            lemma_success_stops(remaining, true, outcomes.drop_first(), i - 1);
        } else {
            lemma_success_stops((remaining - 1) as nat, false, outcomes.drop_first(), i - 1);
        }
    }
}

} // verus!
