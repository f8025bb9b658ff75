use vstd::prelude::*;

verus! {

/// How often a repeating event comes round.
#[derive(Clone, Copy, Debug, PartialEq, Eq, Hash, Structural)]
pub enum DateInterval {
    /// Once every day.
    Daily,
    /// Once every week, on the same day of the week.
    Weekly,
    /// Once every month, on the same day of the month.
    Monthly,
    /// Once every year, on the same day of the year.
    Yearly,
}

} // verus!
