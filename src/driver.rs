use vstd::prelude::*;

use crate::model::StepStatus;

verus! {

/// The fail-fast filter between the transform and load stages: items that
/// succeeded pass on unchanged until the first failure, after which nothing
/// passes.
#[derive(Clone, Copy, Debug)]
pub struct Driver {
    pub halted: bool,
}

/// The filter's state and the items it forwarded, after a sequence of outcomes.
pub open spec fn drive<T>(halted: bool, outcomes: Seq<(StepStatus, T)>) -> (bool, Seq<T>)
    decreases outcomes.len(),
{
    if outcomes.len() == 0 {
        (halted, Seq::empty())
    } else {
        let (h, out) = drive(halted, outcomes.drop_last());
        let (status, item) = outcomes.last();
        if h || status is Failed {
            (true, out)
        } else {
            (false, out.push(item))
        }
    }
}

impl Driver {
    pub fn new() -> (r: Self)
        ensures
            !r.halted,
    {
        Driver { halted: false }
    }

    /// Decides on one outcome of the transform stage: the item to pass on, or
    /// nothing once a failure has been seen (this one included).
    pub fn forward<T>(&mut self, status: StepStatus, item: T) -> (r: Option<T>)
        ensures
            final(self).halted == (old(self).halted || status is Failed),
            final(self).halted ==> r is None,
            !final(self).halted ==> r == Some(item),
    {
        if self.halted {
            return None;
        }
        match status {
            StepStatus::Succeeded => Some(item),
            StepStatus::Failed => {
                self.halted = true;
                None
            },
        }
    }
}

/// Fail-fast: given outcomes whose first failure (if any) stands at index
/// `f`, the filter forwards exactly the items before `f`, in order, and
/// nothing after it; it ends halted exactly when there was a failure.
pub proof fn lemma_nothing_passes_after_failure<T>(outcomes: Seq<(StepStatus, T)>, f: int)
    requires
        0 <= f <= outcomes.len(),
        forall|k: int| 0 <= k < f ==> (#[trigger] outcomes[k]).0 is Succeeded,
        f < outcomes.len() ==> outcomes[f].0 is Failed,
    ensures
        drive(false, outcomes).1 == outcomes.take(f).map_values(|p: (StepStatus, T)| p.1),
        drive(false, outcomes).0 == (f < outcomes.len()),
    decreases outcomes.len(),
{
    if outcomes.len() > 0 {
        let n = outcomes.len();
        let prev = outcomes.drop_last();
        let f2 = if f < n - 1 {
            f
        } else {
            n - 1
        };
        lemma_nothing_passes_after_failure(prev, f2);
        if f == n {
            assert(outcomes.take(f).drop_last() =~= prev.take(f2));
            assert(outcomes.take(f).map_values(|p: (StepStatus, T)| p.1) =~= prev.take(f2).map_values(
                |p: (StepStatus, T)| p.1,
            ).push(outcomes.last().1));
        } else {
            assert(outcomes.take(f) =~= prev.take(f2));
        }
    }
}

} // verus!
