//! Steps that are taken one after another until one that must succeed does not.

use vstd::prelude::*;

verus! {

/// One step of a plan.
pub struct Step<T> {
    /// What is done.
    pub action: T,
    /// Whether the plan ends if it fails.
    pub must_succeed: bool,
}

/// A plan being carried out. `E` is what a step fails with.
pub struct Plan<T, E> {
    steps: Vec<Step<T>>,
    at: usize,
    error: Option<E>,
}

/// How far a plan has come.
pub struct Progress {
    /// How many steps are behind it.
    pub at: int,
    /// Whether the step after those has ended it.
    pub failed: bool,
}

/// How far a plan with `steps` has come after the step that it stood at came to `ok`.
pub open spec fn progress_after<T>(steps: Seq<Step<T>>, p: Progress, ok: bool) -> Progress {
    if ok || !steps[p.at].must_succeed {
        Progress { at: p.at + 1, failed: false }
    } else {
        Progress { at: p.at, failed: true }
    }
}

impl<T: Copy, E> Plan<T, E> {
    /// The steps.
    pub closed spec fn steps(self) -> Seq<Step<T>> {
        self.steps@
    }

    /// How far it has come.
    pub closed spec fn progress(self) -> Progress {
        Progress { at: self.at as int, failed: self.error is Some }
    }

    /// What the step that has ended it failed with, if one has.
    pub closed spec fn error(self) -> Option<E> {
        self.error
    }

    /// No more steps are behind it than there are, and it has failed at one of them, if it has.
    pub open spec fn wf(self) -> bool {
        &&& 0 <= self.progress().at <= self.steps().len()
        &&& self.progress().failed ==> self.progress().at < self.steps().len()
        &&& self.progress().failed <==> self.error() is Some
    }

    /// Whether there is a step to be taken.
    pub open spec fn under_way(self) -> bool {
        !self.progress().failed && self.progress().at < self.steps().len()
    }

    /// Whether all steps are behind it.
    pub open spec fn complete(self) -> bool {
        !self.progress().failed && self.progress().at == self.steps().len()
    }

    /// A plan with these steps, none of them taken.
    pub fn new(steps: Vec<Step<T>>) -> (r: Plan<T, E>)
        ensures
            r.wf(),
            r.steps() == steps@,
            r.progress() == (Progress { at: 0, failed: false }),
    {
        Plan { steps, at: 0, error: None }
    }

    /// The step to be taken, if there is one.
    pub fn current(&self) -> (r: Option<T>)
        requires
            self.wf(),
        ensures
            r == if self.under_way() {
                Some(self.steps()[self.progress().at].action)
            } else {
                None
            },
    {
        if self.error.is_some() || self.at == self.steps.len() {
            None
        } else {
            Some(self.steps[self.at].action)
        }
    }

    /// Goes on after the step to be taken came to `outcome`. What a step fails with that need not
    /// succeed is forgotten.
    pub fn report(&mut self, outcome: Result<(), E>)
        requires
            old(self).wf(),
            old(self).under_way(),
        ensures
            final(self).wf(),
            final(self).steps() == old(self).steps(),
            final(self).progress() == progress_after(
                old(self).steps(),
                old(self).progress(),
                outcome is Ok,
            ),
            final(self).progress().failed ==> outcome == Err::<(), E>(final(self).error()->0),
    {
        let count: usize = self.steps.len();
        assert(self.at < count);
        let must_succeed = self.steps[self.at].must_succeed;
        match outcome {
            Err(e) if must_succeed => {
                self.error = Some(e);
            },
            _ => {
                self.at += 1;
            },
        }
    }

    /// What a plan with nothing left to do came to: what the step that has ended it failed with,
    /// if one has.
    pub fn result(self) -> (r: Result<(), E>)
        requires
            self.wf(),
            !self.under_way(),
        ensures
            r is Ok <==> self.complete(),
            r matches Err(e) ==> self.error() == Some(e),
    {
        match self.error {
            Some(e) => Err(e),
            None => Ok(()),
        }
    }
}

/// How far a plan has come after `n` of its steps were taken, or as many as it takes to end it,
/// where its steps come to `outcomes`.
pub open spec fn carried_out<T>(steps: Seq<Step<T>>, outcomes: Seq<bool>, n: nat) -> Progress
    decreases n,
{
    if n == 0 {
        Progress { at: 0, failed: false }
    } else {
        let p = carried_out(steps, outcomes, (n - 1) as nat);
        if !p.failed && p.at < steps.len() {
            progress_after(steps, p, outcomes[p.at])
        } else {
            p
        }
    }
}

/// Whether every step before the `k`th that must succeed does.
pub open spec fn clear_up_to<T>(steps: Seq<Step<T>>, outcomes: Seq<bool>, k: int) -> bool {
    forall|i: int| 0 <= i < k && (#[trigger] steps[i]).must_succeed ==> outcomes[i]
}

/// A plan gets to a step only if every step before it that must succeed did, it fails only at a
/// step that must succeed and did not, and it otherwise takes all its steps.
pub proof fn law_plan_stops_at_the_first_failure<T>(
    steps: Seq<Step<T>>,
    outcomes: Seq<bool>,
    n: nat,
)
    ensures
        ({
            let p = carried_out(steps, outcomes, n);
            &&& 0 <= p.at <= steps.len()
            &&& clear_up_to(steps, outcomes, p.at)
            &&& p.failed ==> p.at < steps.len() && steps[p.at].must_succeed && !outcomes[p.at]
            &&& !p.failed ==> p.at == if n <= steps.len() {
                n as int
            } else {
                steps.len() as int
            }
        }),
    decreases n,
{
    if n > 0 {
        law_plan_stops_at_the_first_failure(steps, outcomes, (n - 1) as nat);
    }
}

/// A plan has failed, or is complete, or has a step to be taken, and only one of these: it is
/// complete iff all its steps are behind it.
pub proof fn law_plan_is_under_way_until_its_end<T: Copy, E>(p: Plan<T, E>)
    requires
        p.wf(),
    ensures
        p.under_way() <==> p.error() is None && p.progress().at < p.steps().len(),
        p.complete() <==> p.error() is None && p.progress().at == p.steps().len(),
        p.progress().failed <==> !p.under_way() && !p.complete(),
{
}

/// A step that succeeds, and one that need not, has the plan go on to the next; one that must and
/// does not ends it there.
pub proof fn law_plan_goes_on_after_every_success<T>(
    steps: Seq<Step<T>>,
    at: int,
    ok: bool,
)
    ensures
        ({
            let after = progress_after(steps, Progress { at, failed: false }, ok);
            &&& after.failed <==> steps[at].must_succeed && !ok
            &&& after.at == if after.failed {
                at
            } else {
                at + 1
            }
        }),
{
}

} // verus!
