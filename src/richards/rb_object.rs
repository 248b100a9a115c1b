use vstd::prelude::*;
use crate::richards::packet::{queue_view, PacketBox};

verus! {

/// Identity of the idle task.
pub const IDLER: usize = 0;
/// Identity of the worker task.
pub const WORKER: usize = 1;
/// Identity of the first handler task.
pub const HANDLER_A: usize = 2;
/// Identity of the second handler task.
pub const HANDLER_B: usize = 3;
/// Identity of the first device task.
pub const DEVICE_A: usize = 4;
/// Identity of the second device task.
pub const DEVICE_B: usize = 5;
/// Number of task identities; every identity is below it.
pub const NUM_TYPES: usize = 6;

/// Kind of a packet that travels between a handler and a device.
pub const DEVICE_PACKET_KIND: usize = 0;
/// Kind of a packet that the worker fills.
pub const WORK_PACKET_KIND: usize = 1;

/// Behaviour shared by the objects of the simulation: queue manipulation.
pub trait RBObject {
    /// Puts `packet` at the tail of the queue that starts at `queue_head`
    /// and returns the head of the resulting queue. The packet's own link is
    /// cleared first, so only the packet itself joins the queue.
    fn append(packet: PacketBox, queue_head: Option<PacketBox>) -> (r: PacketBox)
        ensures
            queue_view(Some(r)) == queue_view(queue_head).push(packet@),
    {
        let mut packet = packet;
        packet.set_link(None);
        match queue_head {
            None => packet,
            Some(queue_head) => {
                let mut queue_head = queue_head;
                queue_head.append_link(Some(packet));
                queue_head
            },
        }
    }
}

} // verus!
