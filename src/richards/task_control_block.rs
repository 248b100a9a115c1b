use vstd::prelude::*;
use crate::richards::device_task_data_record::DeviceTaskDataRecord;
use crate::richards::handler_task_data_record::{
    device_with_input, work_with_input, HandlerTaskDataRecord,
};
use crate::richards::idle_task_data_record::IdleTaskDataRecord;
use crate::richards::packet::{queue_view, routable, PacketBox, PacketView};
use crate::richards::rb_object::{RBObject, DEVICE_A, DEVICE_B, NUM_TYPES};
use crate::richards::task_action::TaskAction;
use crate::richards::task_state::{TaskState, TaskStateView};
use crate::richards::worker_task_data_record::WorkerTaskDataRecord;

verus! {

/// The behaviour of a task, with the private data it keeps between activations.
pub enum TaskFunction {
    Idle(IdleTaskDataRecord),
    Worker(WorkerTaskDataRecord),
    Handler(HandlerTaskDataRecord),
    Device(DeviceTaskDataRecord),
}

impl TaskFunction {
    /// Every packet that the private data holds names a task that exists.
    pub open spec fn routable(&self) -> bool {
        match self {
            TaskFunction::Handler(h) => h.routable(),
            TaskFunction::Device(d) => d.routable(),
            _ => true,
        }
    }

    /// The behaviour may be activated: an idle countdown has not run out.
    pub open spec fn can_run(&self) -> bool {
        self is Idle ==> self->Idle_0.spec_count() > 0
    }

    /// One activation with input `work` turns `self` into `next` and asks for `r`.
    pub open spec fn runs_to(self, work: Option<PacketBox>, next: Self, r: TaskAction) -> bool {
        match (self, next) {
            (TaskFunction::Idle(a), TaskFunction::Idle(b)) => a.runs_to(b, r),
            (TaskFunction::Worker(a), TaskFunction::Worker(b)) => a.runs_to(work, b, r),
            (TaskFunction::Handler(a), TaskFunction::Handler(b)) => a.runs_to(work, b, r),
            (TaskFunction::Device(a), TaskFunction::Device(b)) => a.runs_to(work, b, r),
            _ => false,
        }
    }

    /// Activates the behaviour with input `work`.
    pub fn run(&mut self, work: Option<PacketBox>) -> (r: TaskAction)
        requires
            old(self).can_run(),
        ensures
            old(self).runs_to(work, *final(self), r),
    {
        match self {
            TaskFunction::Idle(data) => data.run(),
            TaskFunction::Worker(data) => data.run(work),
            TaskFunction::Handler(data) => data.run(work),
            TaskFunction::Device(data) => data.run(work),
        }
    }
}

/// What an activation keeps of the scheduler's invariants: packets stay
/// routable, the kind of behaviour stays, only devices are released, and an
/// idle countdown that runs out asks to hold.
pub proof fn lemma_runs_to_keeps_routing(
    f: TaskFunction,
    work: Option<PacketBox>,
    next: TaskFunction,
    r: TaskAction,
)
    requires
        f.runs_to(work, next, r),
        f.routable(),
        work is Some ==> work->0@.identity < NUM_TYPES,
    ensures
        next.routable(),
        r.routable(),
        (next is Idle) == (f is Idle),
        r is Release ==> r->Release_0 == DEVICE_A || r->Release_0 == DEVICE_B,
        next is Idle && next->Idle_0.spec_count() == 0 ==> r is HoldSelf,
{
    if let TaskFunction::Handler(a) = f {
        let w = work_with_input(a.work_queue(), work);
        let d = device_with_input(a.device_queue(), work);
        assert(routable(w));
        assert(routable(d));
        if w.len() > 0 {
            lemma_routable_drop_first(w);
            let head = seq![PacketView { datum: (w[0].datum + 1) as usize, ..w[0] }];
            assert(routable(head + w.drop_first())) by {
                assert forall|i: int| 0 <= i < (head + w.drop_first()).len() implies (#[trigger] (
                head + w.drop_first())[i]).identity < NUM_TYPES by {
                    if i > 0 {
                        assert((head + w.drop_first())[i] == w.drop_first()[i - 1]);
                    }
                }
            }
        }
        if d.len() > 0 {
            lemma_routable_drop_first(d);
        }
    }
}

/// Dropping the head of a routable queue leaves a routable queue.
proof fn lemma_routable_drop_first(q: Seq<PacketView>)
    requires
        routable(q),
        q.len() > 0,
    ensures
        routable(q.drop_first()),
{
    assert forall|i: int| 0 <= i < q.drop_first().len() implies (
    #[trigger] q.drop_first()[i]).identity < NUM_TYPES by {
        assert(q.drop_first()[i] == q[i + 1]);
    }
}

/// The scheduler's record of one task.
pub struct TaskControlBlock {
    link: Option<usize>,
    identity: usize,
    priority: usize,
    input: Option<PacketBox>,
    state: TaskState,
    function: TaskFunction,
}

impl RBObject for TaskControlBlock {}

impl TaskControlBlock {
    /// The task registered just before this one, which the scheduler visits next.
    pub closed spec fn spec_link(&self) -> Option<usize> {
        self.link
    }

    pub closed spec fn spec_identity(&self) -> usize {
        self.identity
    }

    pub closed spec fn spec_priority(&self) -> usize {
        self.priority
    }

    /// The packets waiting in the input queue, head first.
    pub closed spec fn input_queue(&self) -> Seq<PacketView> {
        queue_view(self.input)
    }

    pub closed spec fn spec_state(&self) -> TaskStateView {
        self.state@
    }

    pub closed spec fn spec_function(&self) -> TaskFunction {
        self.function
    }

    /// Identity, link, priority, input and behaviour agree.
    pub open spec fn same_but_state(&self, other: &Self) -> bool {
        &&& self.spec_identity() == other.spec_identity()
        &&& self.spec_link() == other.spec_link()
        &&& self.spec_priority() == other.spec_priority()
        &&& self.input_queue() == other.input_queue()
        &&& self.spec_function() == other.spec_function()
    }

    /// A pending packet is really there, and every packet held names a task that exists.
    pub open spec fn queues_ok(&self) -> bool {
        &&& self.spec_state().packet_pending ==> self.input_queue().len() > 0
        &&& routable(self.input_queue())
        &&& self.spec_function().routable()
    }

    /// An idle task whose countdown has run out holds.
    pub open spec fn idle_ok(&self) -> bool {
        self.spec_function() is Idle && self.spec_function()->Idle_0.spec_count() == 0
            ==> self.spec_state().task_holding
    }

    pub open spec fn inv(&self) -> bool {
        self.queues_ok() && self.idle_ok()
    }

    pub fn new(
        link: Option<usize>,
        identity: usize,
        priority: usize,
        initial_input: Option<PacketBox>,
        initial_state: TaskState,
        function: TaskFunction,
    ) -> (r: Self)
        ensures
            r.spec_link() == link,
            r.spec_identity() == identity,
            r.spec_priority() == priority,
            r.input_queue() == queue_view(initial_input),
            r.spec_state() == initial_state@,
            r.spec_function() == function,
    {
        TaskControlBlock {
            link,
            identity,
            priority,
            input: initial_input,
            state: initial_state,
            function,
        }
    }

    pub fn get_identity(&self) -> (r: usize)
        ensures
            r == self.spec_identity(),
    {
        self.identity
    }

    pub fn get_link(&self) -> (r: Option<usize>)
        ensures
            r == self.spec_link(),
    {
        self.link
    }

    pub fn get_priority(&self) -> (r: usize)
        ensures
            r == self.spec_priority(),
    {
        self.priority
    }

    pub fn set_task_holding(&mut self, hold: bool)
        ensures
            final(self).same_but_state(old(self)),
            final(self).spec_state() == (TaskStateView {
                task_holding: hold,
                ..old(self).spec_state()
            }),
    {
        self.state.set_task_holding(hold);
    }

    pub fn set_task_waiting(&mut self, wait: bool)
        ensures
            final(self).same_but_state(old(self)),
            final(self).spec_state() == (TaskStateView {
                task_waiting: wait,
                ..old(self).spec_state()
            }),
    {
        self.state.set_task_waiting(wait);
    }

    /// The task may not be dispatched.
    pub fn is_task_holding_or_waiting(&self) -> (r: bool)
        ensures
            r == !self.spec_state().is_runnable(),
    {
        self.state.is_task_holding_or_waiting()
    }

    /// Delivers `packet` to the input queue while the task `old_identity`, of
    /// priority `old_priority`, runs. Into an empty queue the packet goes as
    /// it is and marks a packet pending; then, if the receiving task has the higher
    /// priority, its identity is returned: it runs next. Otherwise the packet
    /// joins the tail of the queue and `old_identity` is returned.
    pub fn add_input_and_check_priority(
        &mut self,
        packet: PacketBox,
        old_identity: usize,
        old_priority: usize,
    ) -> (r: usize)
        ensures
            final(self).spec_identity() == old(self).spec_identity(),
            final(self).spec_link() == old(self).spec_link(),
            final(self).spec_priority() == old(self).spec_priority(),
            final(self).spec_function() == old(self).spec_function(),
            old(self).input_queue().len() == 0 ==> {
                &&& final(self).input_queue() == queue_view(Some(packet))
                &&& final(self).spec_state() == (TaskStateView {
                    packet_pending: true,
                    ..old(self).spec_state()
                })
                &&& r == if old(self).spec_priority() > old_priority {
                    old(self).spec_identity()
                } else {
                    old_identity
                }
            },
            old(self).input_queue().len() > 0 ==> {
                &&& final(self).input_queue() == old(self).input_queue().push(packet@)
                &&& final(self).spec_state() == old(self).spec_state()
                &&& r == old_identity
            },
    {
        let input = self.input.take();
        if input.is_none() {
            self.input = Some(packet);
            self.state.set_packet_pending(true);
            if self.priority > old_priority {
                return self.identity;
            }
        } else {
            self.input = Some(Self::append(packet, input));
        }
        old_identity
    }

    /// Running the task once turns `self` into `next` and asks for `r`: a
    /// task that waits with a packet first takes the head of its input
    /// queue as its message, and is then running, or still has a packet
    /// pending if more remain; any other task gets no message. The
    /// behaviour then runs on the message.
    pub open spec fn runs_task_to(self, next: Self, r: TaskAction) -> bool {
        &&& next.spec_identity() == self.spec_identity()
        &&& next.spec_link() == self.spec_link()
        &&& next.spec_priority() == self.spec_priority()
        &&& self.spec_state().is_waiting_with_packet() ==> {
            let q = self.input_queue();
            &&& next.input_queue() == q.drop_first()
            &&& q.len() == 1 ==> next.spec_state().is_running()
            &&& q.len() > 1 ==> next.spec_state().is_packet_pending()
            &&& exists|m: PacketBox|
                #![trigger self.spec_function().runs_to(Some(m), next.spec_function(), r)]
                m@ == q[0] && m.rest() == Seq::<PacketView>::empty()
                    && self.spec_function().runs_to(Some(m), next.spec_function(), r)
        }
        &&& !self.spec_state().is_waiting_with_packet() ==> {
            &&& next.input_queue() == self.input_queue()
            &&& next.spec_state() == self.spec_state()
            &&& self.spec_function().runs_to(None, next.spec_function(), r)
        }
    }

    /// Runs the task once. A task that waits with a packet first takes the
    /// head of its input queue as its message, and is then running, or still
    /// has a packet pending if more remain; any other task gets no message.
    /// The behaviour then runs on the message and its request is returned.
    /// Only a runnable task is run.
    pub fn run_task(&mut self) -> (r: TaskAction)
        requires
            old(self).inv(),
            old(self).spec_state().is_runnable(),
        ensures
            old(self).runs_task_to(*final(self), r),
            final(self).queues_ok(),
            r.routable(),
            (final(self).spec_function() is Idle) == (old(self).spec_function() is Idle),
            r is Release ==> r->Release_0 == DEVICE_A || r->Release_0 == DEVICE_B,
            final(self).spec_function() is Idle && final(self).spec_function()->Idle_0.spec_count()
                == 0 ==> r is HoldSelf,
    {
        let message = if self.state.is_waiting_with_packet() {
            let message = self.input.take();
            match message {
                None => None,
                Some(m) => {
                    let mut m = m;
                    let ghost q = queue_view(Some(m));
                    assert(q == old(self).input_queue());
                    assert(q[0] == m@);
                    match m.take_link() {
                        None => {
                            self.input = None;
                            self.state.running();
                        },
                        Some(input) => {
                            self.input = Some(input);
                            self.state.packet_pending();
                        },
                    }
                    assert(self.input_queue() =~= q.drop_first());
                    Some(m)
                },
            }
        } else {
            None
        };
        let r = self.function.run(message);
        proof {
            lemma_runs_to_keeps_routing(old(self).function, message, self.function, r);
        }
        r
    }
}

} // verus!
