use vstd::prelude::*;
use crate::richards::rb_object::RBObject;

verus! {

/// The three flags of a task's state.
pub struct TaskStateView {
    pub packet_pending: bool,
    pub task_waiting: bool,
    pub task_holding: bool,
}

impl TaskStateView {
    /// A task may be dispatched: it does not hold, and it does not wait
    /// without a packet.
    pub open spec fn is_runnable(self) -> bool {
        !self.task_holding && !(self.task_waiting && !self.packet_pending)
    }

    /// No flag is set.
    pub open spec fn is_running(self) -> bool {
        !self.packet_pending && !self.task_waiting && !self.task_holding
    }

    /// Waits for a packet and has none.
    pub open spec fn is_waiting(self) -> bool {
        !self.packet_pending && self.task_waiting && !self.task_holding
    }

    /// Waits and a packet has arrived.
    pub open spec fn is_waiting_with_packet(self) -> bool {
        self.packet_pending && self.task_waiting && !self.task_holding
    }

    /// A packet has arrived and the task neither waits nor holds.
    pub open spec fn is_packet_pending(self) -> bool {
        self.packet_pending && !self.task_waiting && !self.task_holding
    }
}

/// The state flags of one task.
#[derive(Clone, Copy)]
pub struct TaskState {
    packet_pending: bool,
    task_waiting: bool,
    task_holding: bool,
}

impl View for TaskState {
    type V = TaskStateView;

    closed spec fn view(&self) -> TaskStateView {
        TaskStateView {
            packet_pending: self.packet_pending,
            task_waiting: self.task_waiting,
            task_holding: self.task_holding,
        }
    }
}

impl Default for TaskState {
    fn default() -> (r: Self)
        ensures
            r@ == (TaskStateView { packet_pending: true, task_waiting: false, task_holding: false }),
    {
        TaskState { packet_pending: true, task_waiting: false, task_holding: false }
    }
}

impl RBObject for TaskState {}

impl TaskState {
    pub fn is_packet_pending(&self) -> (r: bool)
        ensures
            r == self@.packet_pending,
    {
        self.packet_pending
    }

    pub fn is_task_holding(&self) -> (r: bool)
        ensures
            r == self@.task_holding,
    {
        self.task_holding
    }

    pub fn is_task_waiting(&self) -> (r: bool)
        ensures
            r == self@.task_waiting,
    {
        self.task_waiting
    }

    pub fn set_task_holding(&mut self, task_holding: bool)
        ensures
            final(self)@ == (TaskStateView { task_holding, ..old(self)@ }),
    {
        self.task_holding = task_holding;
    }

    pub fn set_task_waiting(&mut self, task_waiting: bool)
        ensures
            final(self)@ == (TaskStateView { task_waiting, ..old(self)@ }),
    {
        self.task_waiting = task_waiting;
    }

    pub fn set_packet_pending(&mut self, packet_pending: bool)
        ensures
            final(self)@ == (TaskStateView { packet_pending, ..old(self)@ }),
    {
        self.packet_pending = packet_pending;
    }

    /// Marks a packet as pending and clears waiting and holding.
    pub fn packet_pending(&mut self)
        ensures
            final(self)@.is_packet_pending(),
    {
        self.packet_pending = true;
        self.task_waiting = false;
        self.task_holding = false;
    }

    /// Clears every flag.
    pub fn running(&mut self)
        ensures
            final(self)@.is_running(),
    {
        self.packet_pending = false;
        self.task_waiting = false;
        self.task_holding = false;
    }

    /// Waits for a packet, with none pending.
    pub fn waiting(&mut self)
        ensures
            final(self)@.is_waiting(),
    {
        self.packet_pending = false;
        self.task_holding = false;
        self.task_waiting = true;
    }

    /// Waits, with a packet pending.
    pub fn waiting_with_packet(&mut self)
        ensures
            final(self)@.is_waiting_with_packet(),
    {
        self.task_holding = false;
        self.task_waiting = true;
        self.packet_pending = true;
    }

    pub fn is_running(&self) -> (r: bool)
        ensures
            r == self@.is_running(),
    {
        !self.packet_pending && !self.task_waiting && !self.task_holding
    }

    /// The task may not be dispatched: it holds, or it waits without a packet.
    pub fn is_task_holding_or_waiting(&self) -> (r: bool)
        ensures
            r == (self@.task_holding || (!self@.packet_pending && self@.task_waiting)),
            r == !self@.is_runnable(),
    {
        self.task_holding || (!self.packet_pending && self.task_waiting)
    }

    pub fn is_waiting(&self) -> (r: bool)
        ensures
            r == self@.is_waiting(),
    {
        !self.packet_pending && self.task_waiting && !self.task_holding
    }

    pub fn is_waiting_with_packet(&self) -> (r: bool)
        ensures
            r == self@.is_waiting_with_packet(),
    {
        self.packet_pending && self.task_waiting && !self.task_holding
    }

    pub fn create_packet_pending() -> (r: TaskState)
        ensures
            r@.is_packet_pending(),
    {
        let mut task_state = TaskState::default();
        task_state.packet_pending();
        task_state
    }

    pub fn create_running() -> (r: TaskState)
        ensures
            r@.is_running(),
    {
        let mut task_state = TaskState::default();
        task_state.running();
        task_state
    }

    pub fn create_waiting() -> (r: TaskState)
        ensures
            r@.is_waiting(),
    {
        let mut task_state = TaskState::default();
        task_state.waiting();
        task_state
    }

    pub fn create_waiting_with_packet() -> (r: TaskState)
        ensures
            r@.is_waiting_with_packet(),
    {
        let mut task_state = TaskState::default();
        task_state.waiting_with_packet();
        task_state
    }
}

/// Holding takes precedence: for every one of the eight flag combinations,
/// a task is runnable exactly when it is running, waiting with a packet, or
/// has a packet pending, and a holding task is never runnable.
pub proof fn lemma_runnable_classification(s: TaskStateView)
    ensures
        s.is_runnable() <==> (s.is_running() || s.is_waiting_with_packet() || s.is_packet_pending()),
        s.task_holding ==> !s.is_runnable(),
        s.is_waiting() ==> !s.is_runnable(),
        s.is_runnable() <==> !s.task_holding && !(s.task_waiting && !s.packet_pending),
{
}

} // verus!
