//! Logical time and the rule for advancing it.
use vstd::prelude::*;

verus! {

/// A logical timestamp, totally ordered.
pub type Time = u64;

/// A signed change in the multiplicity of a record.
pub type Diff = isize;

/// Whether a component last advanced to `last` may be advanced to `time`:
/// advancement never goes back.
pub open spec fn may_advance(last: Option<Time>, time: Time) -> bool {
    match last {
        None => true,
        Some(l) => l <= time,
    }
}

/// A request to move time backwards.
#[derive(Debug, PartialEq, Eq, Structural, Clone, Copy)]
pub struct TimeRegression {
    /// The time last advanced to.
    pub last: Time,
    /// The earlier time that was asked for.
    pub requested: Time,
}

/// Checks that `time` does not go back from `last`.
pub fn check_advance(last: Option<Time>, time: Time) -> (r: Result<(), TimeRegression>)
    ensures
        r is Ok <==> may_advance(last, time),
        r matches Err(e) ==> last == Some(e.last) && e.requested == time,
{
    match last {
        Some(l) => if time < l {
            Err(TimeRegression { last: l, requested: time })
        } else {
            Ok(())
        },
        None => Ok(()),
    }
}

/// Monotonic advance: times advanced to in increasing order are each
/// accepted, and a time earlier than the last one is refused.
pub proof fn monotonic_advance(t1: Time, t2: Time, t3: Time, earlier: Time)
    requires
        t1 < t2 < t3,
        earlier < t3,
    ensures
        may_advance(None, t1),
        may_advance(Some(t1), t2),
        may_advance(Some(t2), t3),
        !may_advance(Some(t3), earlier),
{
}

} // verus!
