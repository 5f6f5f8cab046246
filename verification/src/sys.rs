use vstd::prelude::*;
use std::time::Duration;

verus! {

/// Services that the host system provides to the locks.
pub trait SystemHooks {
    /// The current time, measured from an arbitrary fixed point.
    fn current_time(&self) -> Duration;
}

} // verus!
