//! How a main device is set up.

use vstd::prelude::*;

verus! {

/// How often a frame is sent again when no response comes.
#[derive(Clone, Copy, Debug, PartialEq, Eq, Structural)]
pub enum RetryBehaviour {
    /// Never.
    Never,
    /// This many times.
    Count(usize),
    /// For as long as it takes.
    Forever,
}

impl RetryBehaviour {
    /// The number of retries.
    pub open spec fn retries(self) -> usize {
        match self {
            RetryBehaviour::Never => 0,
            RetryBehaviour::Count(n) => n,
            RetryBehaviour::Forever => usize::MAX,
        }
    }

    /// The number of retries.
    pub fn retry_count(&self) -> (r: usize)
        ensures
            r == self.retries(),
    {
        match self {
            RetryBehaviour::Never => 0,
            RetryBehaviour::Count(n) => *n,
            RetryBehaviour::Forever => usize::MAX,
        }
    }
}

/// Configuration of a main device.
#[derive(Clone, Copy, Debug, PartialEq, Eq, Structural)]
pub struct MainDeviceConfig {
    /// How many times the system time is sent round to level out the drift of the clocks.
    pub dc_static_sync_iterations: u32,
    /// How often a frame is sent again when no response comes.
    pub retry_behaviour: RetryBehaviour,
}

/// How long things may take, in microseconds.
#[derive(Clone, Copy, Debug, PartialEq, Eq, Structural)]
pub struct Timeouts {
    /// For a change of state.
    pub state_transition: u64,
    /// For the response to a PDU.
    pub pdu: u64,
    /// How long to pause between two looks at a state.
    pub wait_loop_delay: u64,
}

/// A frame is sent again never, as often as was said, or for as long as there are numbers to count
/// it with.
pub proof fn law_retries(n: usize)
    ensures
        RetryBehaviour::Never.retries() == 0,
        RetryBehaviour::Count(n).retries() == n,
        n <= RetryBehaviour::Forever.retries(),
{
}

} // verus!
