//! The power profile of a streaming session: which clocks it asks for, and what it puts back.

use vstd::prelude::*;

verus! {

/// Whether a session asks for a profile of its own. Off: the overrides made the stream drift.
pub const ENABLED: bool = false;

/// Seconds between two ticks that keep the console awake.
pub const POWER_TICK_INTERVAL_SECS: u64 = 10;

/// Clock frequencies in MHz, and whether the radio runs in performance mode.
#[derive(Debug, Clone, Copy, PartialEq, Eq, Structural)]
pub struct Clocks {
    pub arm: i32,
    pub bus: i32,
    pub gpu: i32,
    pub gpu_xbar: i32,
    pub wireless: i32,
}

/// What a session asks for.
pub open spec fn streaming_profile() -> Clocks {
    Clocks { arm: 444, bus: 222, gpu: 222, gpu_xbar: 166, wireless: 1 }
}

/// The power state of a session: what was set before it, if it set anything.
#[derive(Debug, PartialEq, Eq, Structural)]
pub struct PowerProfile {
    pub saved: Option<Clocks>,
}

impl PowerProfile {
    /// Starts a session, given what is set; tells what to set.
    pub fn engage(enabled: bool, current: Clocks) -> (engaged: (PowerProfile, Option<Clocks>))
        ensures
            engaged.1 == if enabled {
                Some(streaming_profile())
            } else {
                None
            },
            engaged.0.saved == if enabled {
                Some(current)
            } else {
                None
            },
    {
        if enabled {
            let wanted = Clocks { arm: 444, bus: 222, gpu: 222, gpu_xbar: 166, wireless: 1 };
            (PowerProfile { saved: Some(current) }, Some(wanted))
        } else {
            (PowerProfile { saved: None }, None)
        }
    }

    /// Ends a session; tells what to set. What was set once is not set again.
    pub fn restore(&mut self) -> (previous: Option<Clocks>)
        ensures
            previous == old(self).saved,
            final(self).saved is None,
    {
        let previous = self.saved;
        self.saved = None;
        previous
    }
}

} // verus!
