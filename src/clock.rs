use vstd::prelude::*;

verus! {

/// A point on a monotonic clock, in nanoseconds since an origin that the
/// owner of the connection picks once and keeps.
#[derive(Clone, Copy, Debug, PartialEq, Eq, Structural)]
pub struct Moment {
    pub nanos: u64,
}

/// Time from `earlier` to `later`, never negative: a clock that seems to run
/// backward gives zero.
pub open spec fn elapsed(later: Moment, earlier: Moment) -> nat {
    if later.nanos >= earlier.nanos {
        (later.nanos - earlier.nanos) as nat
    } else {
        0
    }
}

impl Moment {
    pub fn from_nanos(nanos: u64) -> (r: Moment)
        ensures
            r.nanos == nanos,
    {
        Moment { nanos }
    }

    /// Nanoseconds from `earlier` to `self`, saturating at zero.
    pub fn saturating_nanos_since(&self, earlier: &Moment) -> (r: u64)
        ensures
            r == elapsed(*self, *earlier),
    {
        if self.nanos >= earlier.nanos {
            self.nanos - earlier.nanos
        } else {
            0
        }
    }
}

} // verus!
