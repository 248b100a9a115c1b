use vstd::prelude::*;
use crate::richards::rb_object::{RBObject, NUM_TYPES};

verus! {

/// Number of payload words a packet carries.
pub const DATA_SIZE: usize = 4;

/// An owned packet, as it sits in a queue or travels between tasks.
pub type PacketBox = Box<Packet>;

/// What a packet holds, apart from its link.
pub struct PacketView {
    pub identity: usize,
    pub kind: usize,
    pub datum: usize,
    pub data: Seq<usize>,
}

/// A unit of work exchanged between tasks; packets chain into queues through `link`.
pub struct Packet {
    link: Option<PacketBox>,
    identity: usize,
    kind: usize,
    datum: usize,
    data: [usize; 4],
}

impl View for Packet {
    type V = PacketView;

    closed spec fn view(&self) -> PacketView {
        PacketView {
            identity: self.identity,
            kind: self.kind,
            datum: self.datum,
            data: self.data@,
        }
    }
}

/// The packets of the queue that starts at `q`, head first.
pub open spec fn queue_view(q: Option<PacketBox>) -> Seq<PacketView>
    decreases q,
{
    match q {
        None => Seq::empty(),
        Some(p) => seq![p@] + p.rest(),
    }
}

/// Every packet of `q` names a task that exists.
pub open spec fn routable(q: Seq<PacketView>) -> bool {
    forall|i: int| 0 <= i < q.len() ==> (#[trigger] q[i]).identity < NUM_TYPES
}

impl Packet {
    /// The packets that follow this one in its queue.
    pub closed spec fn rest(&self) -> Seq<PacketView>
        decreases self,
    {
        queue_view(self.link)
    }

    /// Payload words always number `DATA_SIZE`.
    pub proof fn lemma_data_len(p: &Packet)
        ensures
            p@.data.len() == DATA_SIZE,
    {
    }

    pub fn new(link: Option<PacketBox>, identity: usize, kind: usize) -> (r: Packet)
        ensures
            r@ == (PacketView { identity, kind, datum: 0, data: seq![0usize, 0, 0, 0] }),
            r.rest() == queue_view(link),
    {
        let r = Packet { link, identity, kind, datum: 0, data: [0, 0, 0, 0] };
        assert(r.data@ =~= seq![0usize, 0, 0, 0]);
        r
    }

    pub fn new_boxed(link: Option<PacketBox>, identity: usize, kind: usize) -> (r: PacketBox)
        ensures
            r@ == (PacketView { identity, kind, datum: 0, data: seq![0usize, 0, 0, 0] }),
            r.rest() == queue_view(link),
    {
        Box::new(Packet::new(link, identity, kind))
    }

    pub fn get_data(&self) -> (r: &[usize; 4])
        ensures
            r@ == self@.data,
    {
        &self.data
    }

    pub fn get_data_mut(&mut self) -> (r: &mut [usize; 4])
        ensures
            r@ == old(self)@.data,
            final(self)@ == (PacketView { data: final(r)@, ..old(self)@ }),
            final(self).rest() == old(self).rest(),
    {
        &mut self.data
    }

    pub fn get_datum(&self) -> (r: usize)
        ensures
            r == self@.datum,
    {
        self.datum
    }

    pub fn set_datum(&mut self, some_data: usize)
        ensures
            final(self)@ == (PacketView { datum: some_data, ..old(self)@ }),
            final(self).rest() == old(self).rest(),
    {
        self.datum = some_data;
    }

    pub fn get_identity(&self) -> (r: usize)
        ensures
            r == self@.identity,
    {
        self.identity
    }

    pub fn set_identity(&mut self, an_identity: usize)
        ensures
            final(self)@ == (PacketView { identity: an_identity, ..old(self)@ }),
            final(self).rest() == old(self).rest(),
    {
        self.identity = an_identity;
    }

    pub fn get_kind(&self) -> (r: usize)
        ensures
            r == self@.kind,
    {
        self.kind
    }

    pub fn get_link(&self) -> (r: &Option<PacketBox>)
        ensures
            queue_view(*r) == self.rest(),
    {
        &self.link
    }

    /// Detaches and returns the packets that follow this one.
    pub fn take_link(&mut self) -> (r: Option<PacketBox>)
        ensures
            queue_view(r) == old(self).rest(),
            final(self)@ == old(self)@,
            final(self).rest() == Seq::<PacketView>::empty(),
    {
        self.link.take()
    }

    pub fn set_link(&mut self, a_link: Option<PacketBox>)
        ensures
            final(self)@ == old(self)@,
            final(self).rest() == queue_view(a_link),
    {
        self.link = a_link;
    }

    /// Attaches `a_link` after the last packet of this packet's queue.
    pub fn append_link(&mut self, a_link: Option<PacketBox>)
        ensures
            final(self)@ == old(self)@,
            final(self).rest() == old(self).rest() + queue_view(a_link),
        decreases *old(self),
    {
        match self.link.take() {
            None => {
                self.link = a_link;
                assert(queue_view(a_link) =~= Seq::<PacketView>::empty() + queue_view(a_link));
            },
            Some(next) => {
                let mut next = next;
                next.append_link(a_link);
                self.link = Some(next);
                assert(self.rest() =~= old(self).rest() + queue_view(a_link));
            },
        }
    }
}

impl RBObject for Packet {}

} // verus!
