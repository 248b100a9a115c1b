use vstd::prelude::*;
use crate::richards::packet::{queue_view, routable, Packet, PacketBox, PacketView, DATA_SIZE};
use crate::richards::rb_object::{RBObject, WORK_PACKET_KIND};
use crate::richards::task_action::TaskAction;

verus! {

/// Private data of a handler task: the work packets it is serving and the
/// device packets it can hand out.
pub struct HandlerTaskDataRecord {
    work_in: Option<PacketBox>,
    device_in: Option<PacketBox>,
}

/// The work queue once the incoming packet, if it is a work packet, has joined it.
pub open spec fn work_with_input(w: Seq<PacketView>, work: Option<PacketBox>) -> Seq<PacketView> {
    if work is Some && work->0@.kind == WORK_PACKET_KIND {
        w.push(work->0@)
    } else {
        w
    }
}

/// The device queue once the incoming packet, if it is not a work packet, has joined it.
pub open spec fn device_with_input(d: Seq<PacketView>, work: Option<PacketBox>) -> Seq<
    PacketView,
> {
    if work is Some && work->0@.kind != WORK_PACKET_KIND {
        d.push(work->0@)
    } else {
        d
    }
}

/// Whether a handler holding these queues sends the head work packet on:
/// every payload word of it has been passed to a device packet.
pub open spec fn work_done(w: Seq<PacketView>) -> bool {
    w.len() > 0 && w[0].datum >= DATA_SIZE
}

/// Whether a handler holding these queues passes one payload word on.
pub open spec fn can_transfer(w: Seq<PacketView>, d: Seq<PacketView>) -> bool {
    w.len() > 0 && w[0].datum < DATA_SIZE && d.len() > 0
}

impl Default for HandlerTaskDataRecord {
    fn default() -> (r: Self)
        ensures
            r.work_queue() == Seq::<PacketView>::empty(),
            r.device_queue() == Seq::<PacketView>::empty(),
    {
        HandlerTaskDataRecord { work_in: None, device_in: None }
    }
}

impl RBObject for HandlerTaskDataRecord {}

impl HandlerTaskDataRecord {
    pub closed spec fn work_queue(&self) -> Seq<PacketView> {
        queue_view(self.work_in)
    }

    pub closed spec fn device_queue(&self) -> Seq<PacketView> {
        queue_view(self.device_in)
    }

    /// Every packet held names a task that exists.
    pub open spec fn routable(&self) -> bool {
        routable(self.work_queue()) && routable(self.device_queue())
    }

    pub fn take_device_in(&mut self) -> (r: Option<PacketBox>)
        ensures
            queue_view(r) == old(self).device_queue(),
            final(self).device_queue() == Seq::<PacketView>::empty(),
            final(self).work_queue() == old(self).work_queue(),
    {
        self.device_in.take()
    }

    pub fn set_device_in(&mut self, device_in: Option<PacketBox>)
        ensures
            final(self).device_queue() == queue_view(device_in),
            final(self).work_queue() == old(self).work_queue(),
    {
        self.device_in = device_in;
    }

    pub fn device_in_add(&mut self, packet: PacketBox)
        ensures
            final(self).device_queue() == old(self).device_queue().push(packet@),
            final(self).work_queue() == old(self).work_queue(),
    {
        self.device_in = Some(Self::append(packet, self.device_in.take()));
    }

    pub fn take_work_in(&mut self) -> (r: Option<PacketBox>)
        ensures
            queue_view(r) == old(self).work_queue(),
            final(self).work_queue() == Seq::<PacketView>::empty(),
            final(self).device_queue() == old(self).device_queue(),
    {
        self.work_in.take()
    }

    pub fn set_work_in(&mut self, work_in: Option<PacketBox>)
        ensures
            final(self).work_queue() == queue_view(work_in),
            final(self).device_queue() == old(self).device_queue(),
    {
        self.work_in = work_in;
    }

    pub fn work_in_add(&mut self, packet: PacketBox)
        ensures
            final(self).work_queue() == old(self).work_queue().push(packet@),
            final(self).device_queue() == old(self).device_queue(),
    {
        self.work_in = Some(Self::append(packet, self.work_in.take()));
    }

    /// One activation of the handler with input `work` turns `self` into
    /// `next` and asks for `r`.
    pub open spec fn runs_to(self, work: Option<PacketBox>, next: Self, r: TaskAction) -> bool {
        let w = work_with_input(self.work_queue(), work);
        let d = device_with_input(self.device_queue(), work);
        if work_done(w) {
            &&& r is QueuePacket
            &&& r->QueuePacket_0@ == w[0]
            &&& r->QueuePacket_0.rest() == Seq::<PacketView>::empty()
            &&& next.work_queue() == w.drop_first()
            &&& next.device_queue() == d
        } else if can_transfer(w, d) {
            &&& r is QueuePacket
            &&& r->QueuePacket_0@ == (PacketView { datum: w[0].data[w[0].datum as int], ..d[0] })
            &&& r->QueuePacket_0.rest() == Seq::<PacketView>::empty()
            &&& next.work_queue() == seq![PacketView { datum: (w[0].datum + 1) as usize, ..w[0] }]
                + w.drop_first()
            &&& next.device_queue() == d.drop_first()
        } else {
            &&& r is MarkWaiting
            &&& next.work_queue() == w
            &&& next.device_queue() == d
        }
    }

    /// The handler's behaviour. An incoming packet joins the work queue or
    /// the device queue by its kind. Then: a finished head work packet is
    /// sent on; otherwise, with a device packet at hand, the next payload
    /// word of the head work packet goes into that device packet, which is
    /// sent; otherwise the handler waits.
    pub fn run(&mut self, work: Option<PacketBox>) -> (r: TaskAction)
        ensures
            old(self).runs_to(work, *final(self), r),
    {
        if let Some(work) = work {
            if WORK_PACKET_KIND == work.get_kind() {
                self.work_in_add(work);
            } else {
                self.device_in_add(work);
            }
        }
        let ghost w = self.work_queue();
        let ghost d = self.device_queue();
        match self.take_work_in() {
            None => TaskAction::MarkWaiting,
            Some(work) => {
                let mut work = work;
                assert(w.drop_first() =~= work.rest());
                let count = work.get_datum();
                if count >= DATA_SIZE {
                    self.set_work_in(work.take_link());
                    TaskAction::QueuePacket(work)
                } else {
                    match self.take_device_in() {
                        None => {
                            self.set_work_in(Some(work));
                            TaskAction::MarkWaiting
                        },
                        Some(device_packet) => {
                            let mut device_packet = device_packet;
                            assert(d.drop_first() =~= device_packet.rest());
                            self.set_device_in(device_packet.take_link());
                            proof {
                                Packet::lemma_data_len(&*work);
                            }
                            device_packet.set_datum(work.get_data()[count]);
                            work.set_datum(count + 1);
                            self.set_work_in(Some(work));
                            TaskAction::QueuePacket(device_packet)
                        },
                    }
                }
            },
        }
    }
}

} // verus!
