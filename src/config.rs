//! Settings that bound the simulation's pace and its rollback depth.
use vstd::prelude::*;

verus! {

#[derive(Clone, Copy, Debug, PartialEq, Eq, Structural)]
pub struct EngineConfig {
    /// Ticks per second.
    pub update_frequency: usize,
    /// Most ticks that one rollback may re-run, and the number of snapshots
    /// kept.
    pub max_prediction_window: usize,
    /// Ticks between sampling a local input and running the tick it is for.
    pub input_delay: usize,
}

impl EngineConfig {
    /// Sixty ticks per second, a window of twelve ticks, a delay of two.
    pub fn default() -> (r: EngineConfig)
        ensures
            r.update_frequency == 60,
            r.max_prediction_window == 12,
            r.input_delay == 2,
    {
        EngineConfig { update_frequency: 60, max_prediction_window: 12, input_delay: 2 }
    }
}

} // verus!
