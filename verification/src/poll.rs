//! Waiting for a condition by looking at it again and again.
use vstd::prelude::*;

verus! {

/// What to do after a look at the condition.
#[derive(Clone, Copy, Debug, PartialEq, Eq, Structural)]
pub enum PollAction {
    /// The condition holds.
    Done,
    /// The time is up.
    TimedOut,
    /// Sleep, then look again.
    Sleep,
}

/// How long to wait.
#[derive(Clone, Copy, Debug, PartialEq, Eq, Structural)]
pub struct PollBudget {
    /// Time after which to give up, in microseconds.
    pub timeout_us: u64,
}

impl PollBudget {
    /// What to do after a look at the condition, `elapsed_us` after the first. The
    /// condition counts even if it holds only once the time is up.
    pub open spec fn spec_step(self, ready: bool, elapsed_us: u64) -> PollAction {
        if ready {
            PollAction::Done
        } else if elapsed_us > self.timeout_us {
            PollAction::TimedOut
        } else {
            PollAction::Sleep
        }
    }

    /// Decides what to do after a look at the condition.
    pub fn step(&self, ready: bool, elapsed_us: u64) -> (r: PollAction)
        ensures
            r == self.spec_step(ready, elapsed_us),
    {
        if ready {
            PollAction::Done
        } else if elapsed_us > self.timeout_us {
            PollAction::TimedOut
        } else {
            PollAction::Sleep
        }
    }
}

/// What a wait gives, of which `steps` says for each look what it decides: what the first
/// look that decides anything decides. `None` means that none has yet.
pub open spec fn first_decision<T>(steps: Seq<Option<T>>) -> Option<T>
    decreases steps.len(),
{
    if steps.len() == 0 {
        None
    } else if steps[0] is Some {
        steps[0]
    } else {
        first_decision(steps.skip(1))
    }
}

/// The look `i` is the first that decides anything.
pub open spec fn decides_at<T>(steps: Seq<Option<T>>, i: int) -> bool {
    &&& 0 <= i < steps.len()
    &&& steps[i] is Some
    &&& forall|j: int| 0 <= j < i ==> #[trigger] steps[j] is None
}

/// The first look that decides gives the result of a wait, and there is none just as long
/// as no look decides.
pub proof fn law_first_decision<T>(steps: Seq<Option<T>>)
    ensures
        forall|i: int| #[trigger] decides_at(steps, i) ==> first_decision(steps) == steps[i],
        first_decision(steps) is Some ==> exists|i: int| #[trigger] decides_at(steps, i),
        first_decision(steps) is None <==> forall|j: int|
            0 <= j < steps.len() ==> #[trigger] steps[j] is None,
    decreases steps.len(),
{
    if steps.len() > 0 {
        let rest = steps.skip(1);
        if steps[0] is Some {
            assert(decides_at(steps, 0));
        } else {
            law_first_decision(rest);
            assert forall|i: int| #[trigger] decides_at(steps, i) implies first_decision(steps)
                == steps[i] by {
                assert(rest[i - 1] == steps[i]);
                assert forall|j: int| 0 <= j < i - 1 implies #[trigger] rest[j] is None by {
                    assert(rest[j] == steps[j + 1]);
                }
                assert(decides_at(rest, i - 1));
            }
            if first_decision(steps) is Some {
                let k = choose|k: int| #[trigger] decides_at(rest, k);
                assert(steps[k + 1] == rest[k]);
                assert forall|j: int| 0 <= j < k + 1 implies #[trigger] steps[j] is None by {
                    if j > 0 {
                        assert(rest[j - 1] == steps[j]);
                    }
                }
                assert(decides_at(steps, k + 1));
            } else {
                assert forall|j: int| 0 <= j < steps.len() implies #[trigger] steps[j] is None by {
                    if j > 0 {
                        assert(rest[j - 1] == steps[j]);
                    }
                }
            }
        }
    }
}

/// Look `i` neither found anything nor came too late.
pub open spec fn undecided<T>(
    found: Seq<Option<T>>,
    elapsed_us: Seq<u64>,
    timeout_us: u64,
    i: int,
) -> bool {
    found[i] is None && elapsed_us[i] <= timeout_us
}

/// `r` is what a wait gives in which look `i` found `found[i]` at the time `elapsed_us[i]`:
/// what was found by the first look that found anything or came too late, or `late` if it
/// found nothing. `None` means that there is no such look yet.
pub open spec fn wait_gives<T>(
    found: Seq<Option<T>>,
    elapsed_us: Seq<u64>,
    timeout_us: u64,
    late: T,
    r: Option<T>,
) -> bool {
    match r {
        Some(t) => exists|i: int|
            0 <= i < found.len() && !#[trigger] undecided(found, elapsed_us, timeout_us, i) && (
            forall|j: int|
                0 <= j < i ==> #[trigger] undecided(found, elapsed_us, timeout_us, j)) && t == (
            match found[i] {
                Some(t) => t,
                None => late,
            }),
        None => forall|j: int|
            0 <= j < found.len() ==> #[trigger] undecided(found, elapsed_us, timeout_us, j),
    }
}

/// Looking until something is found or the time is up gives what was found in time, and
/// gives up only if nothing was.
pub proof fn law_wait<T>(
    steps: Seq<Option<T>>,
    found: Seq<Option<T>>,
    elapsed_us: Seq<u64>,
    timeout_us: u64,
    late: T,
)
    requires
        found.len() == steps.len(),
        elapsed_us.len() == steps.len(),
        forall|i: int|
            0 <= i < steps.len() ==> #[trigger] steps[i] == (if found[i] is Some {
                found[i]
            } else if elapsed_us[i] > timeout_us {
                Some(late)
            } else {
                None
            }),
    ensures
        wait_gives(found, elapsed_us, timeout_us, late, first_decision(steps)),
{
    law_first_decision(steps);
    assert forall|j: int| 0 <= j < steps.len() implies (#[trigger] undecided(
        found,
        elapsed_us,
        timeout_us,
        j,
    ) <==> steps[j] is None) by {}
    if first_decision(steps) is Some {
        let i = choose|i: int| #[trigger] decides_at(steps, i);
        assert(!undecided(found, elapsed_us, timeout_us, i));
    }
}

/// What is there is found at any time. What is not there is looked for again up to the very
/// end of the time, and given up after.
pub proof fn law_poll_step(budget: PollBudget, elapsed_us: u64)
    ensures
        budget.spec_step(true, elapsed_us) == PollAction::Done,
        elapsed_us <= budget.timeout_us ==> budget.spec_step(false, elapsed_us)
            == PollAction::Sleep,
        elapsed_us > budget.timeout_us ==> budget.spec_step(false, elapsed_us)
            == PollAction::TimedOut,
{
}

} // verus!
