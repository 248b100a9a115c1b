use vstd::prelude::*;
use crate::richards::packet::PacketBox;
use crate::richards::rb_object::{RBObject, NUM_TYPES};
use crate::richards::task_action::TaskAction;

verus! {

/// Private data of a device task: the packet whose transfer is in progress.
pub struct DeviceTaskDataRecord {
    pending: Option<PacketBox>,
}

impl Default for DeviceTaskDataRecord {
    fn default() -> (r: Self)
        ensures
            r.spec_pending() is None,
    {
        DeviceTaskDataRecord { pending: None }
    }
}

impl RBObject for DeviceTaskDataRecord {}

impl DeviceTaskDataRecord {
    pub closed spec fn spec_pending(&self) -> Option<PacketBox> {
        self.pending
    }

    /// The pending packet, if any, names a task that exists.
    pub open spec fn routable(&self) -> bool {
        self.spec_pending() is Some ==> self.spec_pending()->0@.identity < NUM_TYPES
    }

    pub fn take_pending(&mut self) -> (r: Option<PacketBox>)
        ensures
            r == old(self).spec_pending(),
            final(self).spec_pending() is None,
    {
        self.pending.take()
    }

    pub fn set_pending(&mut self, packet: Option<PacketBox>)
        ensures
            final(self).spec_pending() == packet,
    {
        self.pending = packet;
    }

    /// One activation of the device with input `work` turns `self` into
    /// `next` and asks for `r`.
    pub open spec fn runs_to(self, work: Option<PacketBox>, next: Self, r: TaskAction) -> bool {
        &&& work is Some ==> next.spec_pending() == work && r is HoldSelf
        &&& work is None && self.spec_pending() is None ==> next.spec_pending() is None
            && r is MarkWaiting
        &&& work is None && self.spec_pending() is Some ==> next.spec_pending() is None
            && r == TaskAction::QueuePacket(self.spec_pending()->0)
    }

    /// The device's behaviour. With a packet, it stores the packet and holds
    /// (the transfer takes time). Without one, it hands back the stored
    /// packet, or waits if there is none.
    pub fn run(&mut self, work: Option<PacketBox>) -> (r: TaskAction)
        ensures
            old(self).runs_to(work, *final(self), r),
    {
        match work {
            None => match self.take_pending() {
                None => TaskAction::MarkWaiting,
                Some(function_work) => {
                    self.set_pending(None);
                    TaskAction::QueuePacket(function_work)
                },
            },
            Some(function_work) => {
                self.set_pending(Some(function_work));
                TaskAction::HoldSelf
            },
        }
    }
}

} // verus!
