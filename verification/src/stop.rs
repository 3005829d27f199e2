//! The request to stop, which every loop of the proxy looks at.

use vstd::prelude::*;

verus! {

/// Whether the proxy is to stop.
pub struct StopFlag {
    stopped: bool,
}

impl View for StopFlag {
    type V = bool;

    closed spec fn view(&self) -> bool {
        self.stopped
    }
}

impl StopFlag {
    /// A flag that asks nobody to stop.
    pub fn new() -> (r: StopFlag)
        ensures
            !r@,
    {
        StopFlag { stopped: false }
    }

    /// Takes back a request to stop, if there was one.
    pub fn reset(&mut self)
        ensures
            !final(self)@,
    {
        self.stopped = false;
    }
}

/// Asks the proxy to stop.
pub fn request_stop(flag: &mut StopFlag)
    ensures
        final(flag)@,
{
    flag.stopped = true;
}

/// Whether the proxy was asked to stop.
pub fn is_stopped(flag: &StopFlag) -> (r: bool)
    ensures
        r == flag@,
{
    flag.stopped
}

} // verus!
