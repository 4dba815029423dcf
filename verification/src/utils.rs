//! Small helpers on times.

use vstd::prelude::*;
use crate::time::TimeOfDay;

verus! {

/// Rounding down to the whole minute.
pub trait RemoveSeconds: Sized {
    /// The value with its seconds and its sub-second part set to zero.
    spec fn without_seconds(&self) -> Self;

    fn remove_seconds(&self) -> (rounded: Self)
        ensures
            rounded == self.without_seconds(),
    ;
}

impl RemoveSeconds for TimeOfDay {
    open spec fn without_seconds(&self) -> TimeOfDay {
        TimeOfDay { secs: (self.secs / 60 * 60) as u32, frac: 0 }
    }

    fn remove_seconds(&self) -> (rounded: TimeOfDay) {
        TimeOfDay { secs: self.secs / 60 * 60, frac: 0 }
    }
}

/// Rounding down keeps a time of day a time of day, on the same minute and
/// never later than it was; a second rounding changes nothing.
pub proof fn lemma_remove_seconds(time: TimeOfDay)
    requires
        time.wf(),
    ensures
        time.without_seconds().wf(),
        time.without_seconds().secs % 60 == 0,
        time.without_seconds().secs / 60 == time.secs / 60,
        time.without_seconds().at_or_before(&time),
        time.without_seconds().without_seconds() == time.without_seconds(),
{
}

} // verus!
