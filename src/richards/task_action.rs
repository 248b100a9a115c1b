use vstd::prelude::*;
use crate::richards::packet::PacketBox;
use crate::richards::rb_object::NUM_TYPES;

verus! {

/// What a task's behaviour asks the scheduler to do once it has run.
pub enum TaskAction {
    /// Mark the running task as waiting; it stays the current task.
    MarkWaiting,
    /// Count a hold, mark the running task as holding and move on to its link.
    HoldSelf,
    /// Count the packet and deliver it to the task that it names.
    QueuePacket(PacketBox),
    /// Clear the holding flag of the task with this identity.
    Release(usize),
}

impl TaskAction {
    /// Every packet or task that the action names exists.
    pub open spec fn routable(self) -> bool {
        match self {
            TaskAction::QueuePacket(p) => p@.identity < NUM_TYPES,
            TaskAction::Release(id) => id < NUM_TYPES,
            _ => true,
        }
    }
}

} // verus!
