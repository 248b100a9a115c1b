pub mod device_task_data_record;
pub mod handler_task_data_record;
pub mod idle_task_data_record;
pub mod packet;
pub mod rb_object;
pub mod scheduler;
pub mod task_action;
pub mod task_control_block;
pub mod task_state;
pub mod worker_task_data_record;

use vstd::prelude::*;
use crate::richards::scheduler::{
    is_run, Scheduler, EXPECTED_HOLD_COUNT, EXPECTED_QUEUE_PACKET_COUNT, MAX_DISPATCHES,
};

verus! {

/// The task scheduler benchmark: six simulated tasks pass packets until
/// none can run, and the counts of the run are checked.
pub struct Richards;

impl Default for Richards {
    fn default() -> (r: Self) {
        Richards
    }
}

impl Richards {
    /// One run of the canonical workload on a fresh scheduler; true when
    /// the run ended with the expected counts.
    pub fn benchmark(&self) -> (r: bool)
        ensures
            exists|trace: Seq<Scheduler>|
                {
                    &&& trace.len() >= 1
                    &&& (#[trigger] trace[0]).is_canonical_start()
                    &&& is_run(trace)
                    &&& trace.len() <= MAX_DISPATCHES + 1
                    &&& trace.last().is_done() || trace.len() > MAX_DISPATCHES
                    &&& r == (trace.last().is_done() && trace.last().spec_queue_packet_count()
                        == EXPECTED_QUEUE_PACKET_COUNT && trace.last().spec_hold_count()
                        == EXPECTED_HOLD_COUNT)
                },
    {
        let mut scheduler = Scheduler::default();
        scheduler.start()
    }

    /// A run's result is its verdict.
    pub fn verify_result(&self, result: bool) -> (r: bool)
        ensures
            r == result,
    {
        result
    }
}

} // verus!
