use vstd::prelude::*;
use crate::richards::device_task_data_record::DeviceTaskDataRecord;
use crate::richards::handler_task_data_record::HandlerTaskDataRecord;
use crate::richards::idle_task_data_record::{IdleTaskDataRecord, IDLE_COUNT};
use crate::richards::packet::{queue_view, routable, Packet, PacketBox, PacketView};
use crate::richards::rb_object::{
    RBObject, DEVICE_A, DEVICE_B, DEVICE_PACKET_KIND, HANDLER_A, HANDLER_B, IDLER, NUM_TYPES,
    WORKER, WORK_PACKET_KIND,
};
use crate::richards::task_action::TaskAction;
use crate::richards::task_control_block::{TaskControlBlock, TaskFunction};
use crate::richards::task_state::{TaskState, TaskStateView};
use crate::richards::worker_task_data_record::WorkerTaskDataRecord;

verus! {

/// Packets handed off in a correct run of the canonical workload.
pub const EXPECTED_QUEUE_PACKET_COUNT: usize = 23246;
/// Holds in a correct run of the canonical workload.
pub const EXPECTED_HOLD_COUNT: usize = 9297;
/// Loop iterations after which a dispatch run is abandoned as runaway.
pub const MAX_DISPATCHES: usize = 100000000;

/// Runs the tasks: owns every task control block, indexed by identity, the
/// list they were registered in, and the two counters of the run.
pub struct Scheduler {
    task_list: Option<usize>,
    current_task: Option<usize>,
    current_task_identity: usize,
    task_table: Vec<Option<TaskControlBlock>>,
    queue_packet_count: usize,
    hold_count: usize,
    /// The identities in the order of the task list: the last registered first.
    registered: Ghost<Seq<usize>>,
}

/// The task control block in slot `i` of a task table.
pub closed spec fn slot(table: Seq<Option<TaskControlBlock>>, i: int) -> TaskControlBlock {
    table[i]->0
}

/// The table holds exactly the registered tasks, each under its
/// identity; the links chain them in list order; every task's queues are
/// in order; and only the idle slot holds an idle behaviour.
spec fn table_ok(table: Seq<Option<TaskControlBlock>>, reg: Seq<usize>, head: Option<usize>) -> bool {
    &&& table.len() == NUM_TYPES
    &&& reg.no_duplicates()
    &&& forall|k: int| 0 <= k < reg.len() ==> #[trigger] reg[k] < NUM_TYPES
    &&& forall|i: int|
        0 <= i < NUM_TYPES ==> (#[trigger] table[i] is Some <==> reg.contains(
            i as usize,
        ))
    &&& forall|k: int|
        0 <= k < reg.len() ==> {
            let t = #[trigger] slot(table, reg[k] as int);
            &&& t.spec_identity() == reg[k]
            &&& t.spec_link() == if k + 1 < reg.len() {
                Some(reg[k + 1])
            } else {
                None
            }
        }
    &&& forall|i: int|
        0 <= i < NUM_TYPES && table[i] is Some ==> {
            let t = #[trigger] slot(table, i);
            &&& t.queues_ok()
            &&& t.spec_identity() == i
            &&& t.spec_link() is Some ==> t.spec_link()->0 < NUM_TYPES
                && table[t.spec_link()->0 as int] is Some
        }
    &&& forall|i: int|
        0 <= i < NUM_TYPES && table[i] is Some && (#[trigger] slot(table, i)).spec_function() is Idle ==> i == IDLER
    &&& head == if reg.len() > 0 {
        Some(reg[0])
    } else {
        None
    }
}

/// Every registered task but `c` meets the idle invariant.
spec fn table_idle_ok_except(table: Seq<Option<TaskControlBlock>>, c: int) -> bool {
    forall|i: int|
        0 <= i < NUM_TYPES && i != c && table[i] is Some ==> (#[trigger] slot(table, i)).idle_ok()
}

/// All six tasks are registered.
spec fn table_complete(table: Seq<Option<TaskControlBlock>>) -> bool {
    forall|i: int| 0 <= i < NUM_TYPES ==> #[trigger] table[i] is Some
}

/// A packet as set up for the canonical workload: zero datum and payload.
pub open spec fn fresh_packet(identity: usize, kind: usize) -> PacketView {
    PacketView { identity, kind, datum: 0, data: seq![0usize, 0, 0, 0] }
}

/// Each state of `trace` is one iteration of the dispatch loop after the one before.
pub open spec fn is_run(trace: Seq<Scheduler>) -> bool {
    forall|k: int| 0 <= k < trace.len() - 1 ==> #[trigger] trace[k].steps_to(trace[k + 1])
}

impl Default for Scheduler {
    fn default() -> (r: Self)
        ensures
            r.is_fresh(),
    {
        Scheduler {
            task_list: None,
            current_task: None,
            current_task_identity: 0,
            task_table: vec![None, None, None, None, None, None],
            queue_packet_count: 0,
            hold_count: 0,
            registered: Ghost(Seq::empty()),
        }
    }
}

impl RBObject for Scheduler {}

impl Scheduler {
    pub closed spec fn spec_queue_packet_count(&self) -> usize {
        self.queue_packet_count
    }

    pub closed spec fn spec_hold_count(&self) -> usize {
        self.hold_count
    }

    /// The identities on the task list, in the order the dispatch loop walks them.
    pub closed spec fn task_order(&self) -> Seq<usize> {
        self.registered@
    }

    /// The dispatch loop has nothing left to run.
    pub closed spec fn is_done(&self) -> bool {
        self.current_task is None
    }

    /// No task registered yet and both counters at zero.
    pub closed spec fn is_fresh(&self) -> bool {
        &&& self.list_ok()
        &&& self.registered@.len() == 0
        &&& self.current_task is None
        &&& self.queue_packet_count == 0
        &&& self.hold_count == 0
    }

    /// The task control block registered under identity `i`.
    pub closed spec fn task(&self, i: int) -> TaskControlBlock {
        slot(self.task_table@, i)
    }

    closed spec fn list_ok(&self) -> bool {
        table_ok(self.task_table@, self.registered@, self.task_list)
    }

    closed spec fn idle_ok_except(&self, c: int) -> bool {
        table_idle_ok_except(self.task_table@, c)
    }

    closed spec fn complete(&self) -> bool {
        table_complete(self.task_table@)
    }

    /// The scheduler's invariant while it dispatches.
    pub closed spec fn wf(&self) -> bool {
        &&& self.list_ok()
        &&& self.idle_ok_except(-1)
        &&& self.complete()
        &&& self.current_task is Some ==> self.current_task->0 < NUM_TYPES
    }

    /// Only the state of task `j` changes, to `st`.
    closed spec fn changes_state_only(self, next: Self, j: int, st: TaskStateView) -> bool {
        &&& next.task(j).same_but_state(&self.task(j))
        &&& next.task(j).spec_state() == st
        &&& forall|i: int|
            0 <= i < NUM_TYPES && i != j ==> #[trigger] next.task_table@[i] == self.task_table@[i]
    }

    /// The current task has run and asked for `r`: `mid` is `self` with the
    /// task's new record, and the current identity set to it.
    pub closed spec fn runs_current(self, mid: Self, r: TaskAction) -> bool {
        let c = self.current_task->0 as int;
        &&& mid.task_table@ == self.task_table@.update(c, Some(mid.task(c)))
        &&& self.task(c).runs_task_to(mid.task(c), r)
        &&& mid.current_task == self.current_task
        &&& mid.current_task_identity == c as usize
        &&& mid.task_list == self.task_list
        &&& mid.registered == self.registered
        &&& mid.queue_packet_count == self.queue_packet_count
        &&& mid.hold_count == self.hold_count
    }

    /// The scheduler carries out the request `r` of the current task, from
    /// `self` to `next`, and picks the task that runs next: waiting marks the
    /// task and keeps it current; holding counts a hold, marks the task and
    /// moves to its link; releasing clears the holding flag of a task, which
    /// runs next if its priority is higher; queueing counts the packet and
    /// delivers it, marked as sent by the current task, to the task it names
    /// (which runs next if its queue was empty and its priority is higher).
    pub closed spec fn performs(self, r: TaskAction, next: Self) -> bool {
        let c = self.current_task->0 as int;
        let t = self.task(c);
        &&& next.registered == self.registered
        &&& next.task_list == self.task_list
        &&& next.current_task_identity == self.current_task_identity
        &&& match r {
            TaskAction::MarkWaiting => {
                &&& next.queue_packet_count == self.queue_packet_count
                &&& next.hold_count == self.hold_count
                &&& self.changes_state_only(
                    next,
                    c,
                    TaskStateView { task_waiting: true, ..t.spec_state() },
                )
                &&& next.current_task == Some(c as usize)
            },
            TaskAction::HoldSelf => {
                &&& next.queue_packet_count == self.queue_packet_count
                &&& next.hold_count == self.hold_count + 1
                &&& self.changes_state_only(
                    next,
                    c,
                    TaskStateView { task_holding: true, ..t.spec_state() },
                )
                &&& next.current_task == t.spec_link()
            },
            TaskAction::Release(id) => {
                &&& next.queue_packet_count == self.queue_packet_count
                &&& next.hold_count == self.hold_count
                &&& self.changes_state_only(
                    next,
                    id as int,
                    TaskStateView { task_holding: false, ..self.task(id as int).spec_state() },
                )
                &&& next.current_task == Some(
                    if self.task(id as int).spec_priority() > t.spec_priority() {
                        id
                    } else {
                        c as usize
                    },
                )
            },
            TaskAction::QueuePacket(p) => {
                let d = p@.identity as int;
                let sent = PacketView { identity: self.current_task_identity, ..p@ };
                let before = self.task(d);
                let after = next.task(d);
                &&& next.queue_packet_count == self.queue_packet_count + 1
                &&& next.hold_count == self.hold_count
                &&& forall|i: int|
                    0 <= i < NUM_TYPES && i != d ==> #[trigger] next.task_table@[i]
                        == self.task_table@[i]
                &&& after.spec_identity() == before.spec_identity()
                &&& after.spec_link() == before.spec_link()
                &&& after.spec_priority() == before.spec_priority()
                &&& after.spec_function() == before.spec_function()
                &&& before.input_queue().len() == 0 ==> {
                    &&& after.input_queue() == seq![sent]
                    &&& after.spec_state() == (TaskStateView {
                        packet_pending: true,
                        ..before.spec_state()
                    })
                    &&& next.current_task == Some(
                        if before.spec_priority() > t.spec_priority() {
                            d as usize
                        } else {
                            c as usize
                        },
                    )
                }
                &&& before.input_queue().len() > 0 ==> {
                    &&& after.input_queue() == before.input_queue().push(sent)
                    &&& after.spec_state() == before.spec_state()
                    &&& next.current_task == Some(c as usize)
                }
            },
        }
    }

    /// One iteration of the dispatch loop, from `self` to `next`. A current
    /// task that holds, or waits without a packet, is skipped for its link;
    /// any other is run, and the scheduler carries out its request.
    pub closed spec fn steps_to(self, next: Self) -> bool {
        let c = self.current_task->0 as int;
        let t = self.task(c);
        &&& self.current_task is Some
        &&& if !t.spec_state().is_runnable() {
            &&& next.current_task == t.spec_link()
            &&& next.task_table@ == self.task_table@
            &&& next.current_task_identity == self.current_task_identity
            &&& next.task_list == self.task_list
            &&& next.registered == self.registered
            &&& next.queue_packet_count == self.queue_packet_count
            &&& next.hold_count == self.hold_count
        } else {
            exists|mid: Scheduler, r: TaskAction|
                #[trigger] self.runs_current(mid, r) && mid.performs(r, next)
        }
    }

    /// A dispatch step changes no task's priority.
    proof fn lemma_step_keeps_priorities(s: Self, next: Self, i: int)
        requires
            s.steps_to(next),
            s.wf(),
            0 <= i < NUM_TYPES,
        ensures
            next.task(i).spec_priority() == s.task(i).spec_priority(),
    {
        let c = s.current_task->0 as int;
        if s.task(c).spec_state().is_runnable() {
            let (mid, r) = choose|mid: Scheduler, r: TaskAction|
                #[trigger] s.runs_current(mid, r) && mid.performs(r, next);
            assert(mid.task(i).spec_priority() == s.task(i).spec_priority()) by {
                if i != c {
                    assert(mid.task_table@[i] == s.task_table@[i]);
                }
            }
            match r {
                TaskAction::QueuePacket(p) => {
                    if i != p@.identity as int {
                        assert(next.task_table@[i] == mid.task_table@[i]);
                    }
                },
                TaskAction::Release(id) => {
                    if i != id as int {
                        assert(next.task_table@[i] == mid.task_table@[i]);
                    }
                },
                _ => {
                    if i != c {
                        assert(next.task_table@[i] == mid.task_table@[i]);
                    }
                },
            }
        }
    }

    /// `self` is the canonical workload about to be dispatched. Six tasks are
    /// registered, the idle task first and device B last, so the list runs
    /// from device B down to the idle task, which is current. Priorities
    /// rise from 0 for the idle task to 5000 for device B. The idle task is
    /// running with a countdown of `IDLE_COUNT`; the worker waits with two
    /// work packets; each handler waits with three device packets for its
    /// device; the devices wait with nothing. Both counters are zero.
    pub closed spec fn is_canonical_start(self) -> bool {
        let idle = self.task(IDLER as int);
        let worker = self.task(WORKER as int);
        let handler_a = self.task(HANDLER_A as int);
        let handler_b = self.task(HANDLER_B as int);
        let device_a = self.task(DEVICE_A as int);
        let device_b = self.task(DEVICE_B as int);
        let work = fresh_packet(WORKER, WORK_PACKET_KIND);
        let for_a = fresh_packet(DEVICE_A, DEVICE_PACKET_KIND);
        let for_b = fresh_packet(DEVICE_B, DEVICE_PACKET_KIND);
        &&& self.wf()
        &&& self.registered@ == seq![DEVICE_B, DEVICE_A, HANDLER_B, HANDLER_A, WORKER, IDLER]
        &&& self.current_task == Some(DEVICE_B)
        &&& self.queue_packet_count == 0
        &&& self.hold_count == 0
        &&& idle.spec_priority() == 0
        &&& idle.spec_state().is_running()
        &&& idle.input_queue() == Seq::<PacketView>::empty()
        &&& idle.spec_function() is Idle
        &&& idle.spec_function()->Idle_0.spec_count() == IDLE_COUNT
        &&& idle.spec_function()->Idle_0.spec_control() == 1
        &&& worker.spec_priority() == 1000
        &&& worker.spec_state().is_waiting_with_packet()
        &&& worker.input_queue() == seq![work, work]
        &&& worker.spec_function() is Worker
        &&& worker.spec_function()->Worker_0.spec_destination() == HANDLER_A
        &&& worker.spec_function()->Worker_0.spec_count() == 0
        &&& handler_a.spec_priority() == 2000
        &&& handler_a.spec_state().is_waiting_with_packet()
        &&& handler_a.input_queue() == seq![for_a, for_a, for_a]
        &&& handler_a.spec_function() is Handler
        &&& handler_a.spec_function()->Handler_0.work_queue() == Seq::<PacketView>::empty()
        &&& handler_a.spec_function()->Handler_0.device_queue() == Seq::<PacketView>::empty()
        &&& handler_b.spec_priority() == 3000
        &&& handler_b.spec_state().is_waiting_with_packet()
        &&& handler_b.input_queue() == seq![for_b, for_b, for_b]
        &&& handler_b.spec_function() is Handler
        &&& handler_b.spec_function()->Handler_0.work_queue() == Seq::<PacketView>::empty()
        &&& handler_b.spec_function()->Handler_0.device_queue() == Seq::<PacketView>::empty()
        &&& device_a.spec_priority() == 4000
        &&& device_a.spec_state().is_waiting()
        &&& device_a.input_queue() == Seq::<PacketView>::empty()
        &&& device_a.spec_function() is Device
        &&& device_a.spec_function()->Device_0.spec_pending() is None
        &&& device_b.spec_priority() == 5000
        &&& device_b.spec_state().is_waiting()
        &&& device_b.input_queue() == Seq::<PacketView>::empty()
        &&& device_b.spec_function() is Device
        &&& device_b.spec_function()->Device_0.spec_pending() is None
    }

    /// The current task, if any, is on the task list.
    pub closed spec fn visits_registered(self) -> bool {
        self.current_task is Some ==> self.registered@.contains(self.current_task->0)
    }

    /// The current task, if any, may be dispatched.
    pub closed spec fn current_runnable(self) -> bool {
        self.current_task is Some && self.task(self.current_task->0 as int).spec_state().is_runnable()
    }

    proof fn lemma_wf_visits_registered(s: Self)
        requires
            s.wf(),
        ensures
            s.visits_registered(),
    {
        if s.current_task is Some {
            assert(s.task_table@[s.current_task->0 as int] is Some);
        }
    }

    pub closed spec fn spec_current_task(&self) -> Option<usize> {
        self.current_task
    }

    /// A dispatch step never runs a task that may not be dispatched: when
    /// the current task holds, or waits without a packet, the step moves on
    /// to the task after it on the list, and leaves every task and both
    /// counters as they were.
    pub proof fn lemma_non_runnable_is_skipped(s: Self, next: Self)
        requires
            s.steps_to(next),
            !s.current_runnable(),
        ensures
            forall|i: int| 0 <= i < NUM_TYPES ==> #[trigger] next.task(i) == s.task(i),
            next.spec_queue_packet_count() == s.spec_queue_packet_count(),
            next.spec_hold_count() == s.spec_hold_count(),
            next.spec_current_task() == s.task(s.spec_current_task()->0 as int).spec_link(),
    {
    }

    /// `self` is `s` about to start dispatching: the current task is the
    /// head of the task list.
    closed spec fn starts_from(self, s: Self) -> bool {
        &&& self.current_task == s.task_list
        &&& self.task_table@ == s.task_table@
        &&& self.current_task_identity == s.current_task_identity
        &&& self.task_list == s.task_list
        &&& self.registered == s.registered
        &&& self.queue_packet_count == s.queue_packet_count
        &&& self.hold_count == s.hold_count
    }

    /// Fields other than the table agree.
    closed spec fn same_but_table(&self, other: &Self) -> bool {
        &&& self.task_list == other.task_list
        &&& self.current_task == other.current_task
        &&& self.current_task_identity == other.current_task_identity
        &&& self.queue_packet_count == other.queue_packet_count
        &&& self.hold_count == other.hold_count
        &&& self.registered == other.registered
    }

    fn task_ref(&self, identity: usize) -> (r: &TaskControlBlock)
        requires
            identity < self.task_table@.len(),
            self.task_table@[identity as int] is Some,
        ensures
            *r == self.task(identity as int),
    {
        self.task_table[identity].as_ref().unwrap()
    }

    /// The registered task with this identity, to update it in place.
    fn find_task(&mut self, identity: usize) -> (r: &mut TaskControlBlock)
        requires
            identity < old(self).task_table@.len(),
            old(self).task_table@[identity as int] is Some,
        ensures
            *r == old(self).task(identity as int),
            final(self).task_table@ == old(self).task_table@.update(
                identity as int,
                Some(*final(r)),
            ),
            final(self).same_but_table(old(self)),
    {
        self.task_table[identity].as_mut().unwrap()
    }

    /// Replacing one task by one with the same identity, link and kind of
    /// behaviour, whose queues are in order, keeps the list in order.
    proof fn lemma_replace_task(s1: &Self, s2: &Self, j: int)
        requires
            s1.list_ok(),
            0 <= j < NUM_TYPES,
            s1.task_table@[j] is Some,
            s2.task_table@ == s1.task_table@.update(j, Some(s2.task(j))),
            s2.task_list == s1.task_list,
            s2.registered == s1.registered,
            s2.task(j).spec_identity() == s1.task(j).spec_identity(),
            s2.task(j).spec_link() == s1.task(j).spec_link(),
            s2.task(j).queues_ok(),
            s2.task(j).spec_function() is Idle ==> s1.task(j).spec_function() is Idle,
        ensures
            s2.list_ok(),
            forall|i: int| 0 <= i < NUM_TYPES && i != j ==> s2.task_table@[i] == s1.task_table@[i],
            s1.complete() ==> s2.complete(),
            s1.idle_ok_except(j) && s2.task(j).idle_ok() ==> s2.idle_ok_except(-1),
            s1.idle_ok_except(-1) ==> s2.idle_ok_except(j),
    {
        let reg = s1.registered@;
        assert forall|k: int| 0 <= k < reg.len() implies {
            let t = #[trigger] slot(s2.task_table@, reg[k] as int);
            &&& t.spec_identity() == reg[k]
            &&& t.spec_link() == if k + 1 < reg.len() {
                Some(reg[k + 1])
            } else {
                None
            }
        } by {
            let _ = slot(s1.task_table@, reg[k] as int);
        }
        assert forall|i: int| 0 <= i < NUM_TYPES && s2.task_table@[i] is Some implies {
            let t = #[trigger] slot(s2.task_table@, i);
            &&& t.queues_ok()
            &&& t.spec_identity() == i
            &&& t.spec_link() is Some ==> t.spec_link()->0 < NUM_TYPES
                && s2.task_table@[t.spec_link()->0 as int] is Some
            &&& t.spec_function() is Idle ==> i == IDLER
        } by {
            let _ = slot(s1.task_table@, i);
            if s2.task(i).spec_link() is Some {
                assert(s1.task_table@[s2.task(i).spec_link()->0 as int] is Some);
            }
        }
        if s1.idle_ok_except(-1) {
            assert forall|i: int|
                0 <= i < NUM_TYPES && i != j && s2.task_table@[i] is Some implies (
            #[trigger] slot(s2.task_table@, i)).idle_ok() by {
                let _ = slot(s1.task_table@, i);
            }
        }
        if s1.idle_ok_except(j) && s2.task(j).idle_ok() {
            assert forall|i: int|
                0 <= i < NUM_TYPES && i != -1 && s2.task_table@[i] is Some implies (
            #[trigger] slot(s2.task_table@, i)).idle_ok() by {
                if i != j {
                    let _ = slot(s1.task_table@, i);
                }
            }
        }
    }

    /// The current task holds: the hold is counted, its holding flag set,
    /// and the task after it on the list runs next.
    fn hold_self(&mut self) -> (r: Option<usize>)
        requires
            old(self).list_ok(),
            old(self).complete(),
            old(self).current_task is Some,
            old(self).current_task->0 < NUM_TYPES,
            old(self).idle_ok_except(old(self).current_task->0 as int),
            old(self).hold_count < usize::MAX,
        ensures
            final(self).wf(),
            final(self).registered == old(self).registered,
            final(self).current_task_identity == old(self).current_task_identity,
            final(self).task_list == old(self).task_list,
            final(self).hold_count == old(self).hold_count + 1,
            final(self).queue_packet_count == old(self).queue_packet_count,
            ({
                let c = old(self).current_task->0 as int;
                &&& r == old(self).task(c).spec_link()
                &&& final(self).task(c).same_but_state(&old(self).task(c))
                &&& final(self).task(c).spec_state() == (TaskStateView {
                    task_holding: true,
                    ..old(self).task(c).spec_state()
                })
                &&& forall|i: int|
                    0 <= i < NUM_TYPES && i != c ==> #[trigger] final(self).task_table@[i]
                        == old(self).task_table@[i]
            }),
            r is Some ==> r->0 < NUM_TYPES,
    {
        let ghost s1 = *self;
        self.hold_count = self.hold_count + 1;
        let c = self.current_task.unwrap();
        let t = self.find_task(c);
        t.set_task_holding(true);
        let r = t.get_link();
        proof {
            Self::lemma_replace_task(&s1, self, c as int);
        }
        r
    }

    /// Counts the packet and delivers it to the task it names, marked as
    /// coming from the current task; returns the task that runs next.
    fn queue_packet(&mut self, packet: PacketBox) -> (r: Option<usize>)
        requires
            old(self).wf(),
            old(self).current_task is Some,
            old(self).current_task_identity == old(self).current_task->0,
            packet@.identity < NUM_TYPES,
            old(self).queue_packet_count < usize::MAX,
        ensures
            final(self).wf(),
            final(self).registered == old(self).registered,
            final(self).current_task_identity == old(self).current_task_identity,
            final(self).task_list == old(self).task_list,
            final(self).queue_packet_count == old(self).queue_packet_count + 1,
            final(self).hold_count == old(self).hold_count,
            ({
                let c = old(self).current_task->0 as int;
                let t = packet@.identity as int;
                let sent = PacketView { identity: c as usize, ..packet@ };
                let before = old(self).task(t);
                let after = final(self).task(t);
                &&& after.spec_identity() == before.spec_identity()
                &&& after.spec_link() == before.spec_link()
                &&& after.spec_priority() == before.spec_priority()
                &&& after.spec_function() == before.spec_function()
                &&& before.input_queue().len() == 0 ==> {
                    &&& after.input_queue() == seq![sent]
                    &&& after.spec_state() == (TaskStateView {
                        packet_pending: true,
                        ..before.spec_state()
                    })
                    &&& r == Some(
                        if before.spec_priority() > old(self).task(c).spec_priority() {
                            t as usize
                        } else {
                            c as usize
                        },
                    )
                }
                &&& before.input_queue().len() > 0 ==> {
                    &&& after.input_queue() == before.input_queue().push(sent)
                    &&& after.spec_state() == before.spec_state()
                    &&& r == Some(c as usize)
                }
                &&& forall|i: int|
                    0 <= i < NUM_TYPES && i != t ==> #[trigger] final(self).task_table@[i]
                        == old(self).task_table@[i]
            }),
    {
        let ghost s0 = *self;
        self.queue_packet_count = self.queue_packet_count + 1;
        let c = self.current_task.unwrap();
        let current_priority = self.task_ref(c).get_priority();
        let mut packet = packet;
        let identity = packet.get_identity();
        packet.set_link(None);
        packet.set_identity(self.current_task_identity);
        let ghost sent = packet@;
        assert(queue_view(Some(packet)) =~= seq![sent]);
        let ghost s1 = *self;
        let t = self.find_task(identity);
        let next = t.add_input_and_check_priority(packet, c, current_priority);
        proof {
            let q = s1.task(identity as int).input_queue();
            if q.len() > 0 {
                assert forall|i: int| 0 <= i < q.push(sent).len() implies (#[trigger] q.push(
                    sent,
                )[i]).identity < NUM_TYPES by {
                    if i < q.len() {
                        assert(q.push(sent)[i] == q[i]);
                    }
                }
            }
            Self::lemma_replace_task(&s0, self, identity as int);
        }
        Some(next)
    }

    /// Clears the holding flag of the task `identity`; it runs next if its
    /// priority is above the current task's.
    fn release(&mut self, identity: usize) -> (r: Option<usize>)
        requires
            old(self).wf(),
            old(self).current_task is Some,
            identity < NUM_TYPES,
            identity != IDLER,
        ensures
            final(self).wf(),
            final(self).registered == old(self).registered,
            final(self).current_task_identity == old(self).current_task_identity,
            final(self).task_list == old(self).task_list,
            final(self).queue_packet_count == old(self).queue_packet_count,
            final(self).hold_count == old(self).hold_count,
            ({
                let c = old(self).current_task->0 as int;
                let t = identity as int;
                &&& final(self).task(t).same_but_state(&old(self).task(t))
                &&& final(self).task(t).spec_state() == (TaskStateView {
                    task_holding: false,
                    ..old(self).task(t).spec_state()
                })
                &&& r == Some(
                    if old(self).task(t).spec_priority() > old(self).task(c).spec_priority() {
                        identity
                    } else {
                        c as usize
                    },
                )
                &&& forall|i: int|
                    0 <= i < NUM_TYPES && i != t ==> #[trigger] final(self).task_table@[i]
                        == old(self).task_table@[i]
            }),
    {
        let c = self.current_task.unwrap();
        let current_priority = self.task_ref(c).get_priority();
        let ghost s1 = *self;
        let t = self.find_task(identity);
        t.set_task_holding(false);
        let priority = t.get_priority();
        proof {
            Self::lemma_replace_task(&s1, self, identity as int);
        }
        if priority > current_priority {
            Some(identity)
        } else {
            self.current_task
        }
    }

    /// Marks the current task as waiting; it stays the current task.
    fn mark_waiting(&mut self) -> (r: Option<usize>)
        requires
            old(self).wf(),
            old(self).current_task is Some,
        ensures
            final(self).wf(),
            final(self).registered == old(self).registered,
            final(self).current_task_identity == old(self).current_task_identity,
            final(self).task_list == old(self).task_list,
            final(self).queue_packet_count == old(self).queue_packet_count,
            final(self).hold_count == old(self).hold_count,
            ({
                let c = old(self).current_task->0 as int;
                &&& final(self).task(c).same_but_state(&old(self).task(c))
                &&& final(self).task(c).spec_state() == (TaskStateView {
                    task_waiting: true,
                    ..old(self).task(c).spec_state()
                })
                &&& r == old(self).current_task
                &&& forall|i: int|
                    0 <= i < NUM_TYPES && i != c ==> #[trigger] final(self).task_table@[i]
                        == old(self).task_table@[i]
            }),
    {
        let c = self.current_task.unwrap();
        let ghost s1 = *self;
        let t = self.find_task(c);
        t.set_task_waiting(true);
        proof {
            Self::lemma_replace_task(&s1, self, c as int);
        }
        self.current_task
    }

    /// Registers a new task under `identity`, at the head of the task list.
    fn create_task(
        &mut self,
        identity: usize,
        priority: usize,
        work: Option<PacketBox>,
        state: TaskState,
        function: TaskFunction,
    )
        requires
            old(self).list_ok(),
            old(self).idle_ok_except(-1),
            identity < NUM_TYPES,
            old(self).task_table@[identity as int] is None,
            routable(queue_view(work)),
            state@.packet_pending ==> queue_view(work).len() > 0,
            function.routable(),
            function is Idle ==> identity == IDLER && function->Idle_0.spec_count() > 0,
        ensures
            final(self).list_ok(),
            final(self).idle_ok_except(-1),
            final(self).registered@ == seq![identity] + old(self).registered@,
            final(self).current_task == old(self).current_task,
            final(self).queue_packet_count == old(self).queue_packet_count,
            final(self).hold_count == old(self).hold_count,
            final(self).task(identity as int).spec_priority() == priority,
            final(self).task(identity as int).spec_state() == state@,
            final(self).task(identity as int).spec_function() == function,
            final(self).task(identity as int).input_queue() == queue_view(work),
            forall|i: int|
                0 <= i < NUM_TYPES && i != identity ==> #[trigger] final(self).task_table@[i]
                    == old(self).task_table@[i],
    {
        let ghost s1 = *self;
        let t = TaskControlBlock::new(self.task_list, identity, priority, work, state, function);
        self.task_list = Some(identity);
        self.task_table.set(identity, Some(t));
        self.registered = Ghost(seq![identity] + self.registered@);
        proof {
            let reg = s1.registered@;
            let reg2 = self.registered@;
            assert(!reg.contains(identity));
            assert forall|k: int| 0 <= k < reg2.len() implies {
                let t = #[trigger] slot(self.task_table@, reg2[k] as int);
                &&& t.spec_identity() == reg2[k]
                &&& t.spec_link() == if k + 1 < reg2.len() {
                    Some(reg2[k + 1])
                } else {
                    None
                }
            } by {
                if k > 0 {
                    assert(reg2[k] == reg[k - 1]);
                    let _ = slot(s1.task_table@, reg[k - 1] as int);
                }
            }
            assert forall|i: int|
                0 <= i < NUM_TYPES implies (#[trigger] self.task_table@[i] is Some
                <==> reg2.contains(i as usize)) by {
                if i != identity {
                    if reg.contains(i as usize) {
                        let k = choose|k: int| 0 <= k < reg.len() && reg[k] == i as usize;
                        assert(reg2[k + 1] == i as usize);
                    }
                    if reg2.contains(i as usize) {
                        let k = choose|k: int| 0 <= k < reg2.len() && reg2[k] == i as usize;
                        assert(reg[k - 1] == i as usize);
                    }
                } else {
                    assert(reg2[0] == i as usize);
                }
            }
            assert forall|i: int| 0 <= i < NUM_TYPES && self.task_table@[i] is Some implies {
                let t = #[trigger] slot(self.task_table@, i);
                &&& t.queues_ok()
                &&& t.spec_identity() == i
                &&& t.spec_link() is Some ==> t.spec_link()->0 < NUM_TYPES
                    && self.task_table@[t.spec_link()->0 as int] is Some
                &&& t.spec_function() is Idle ==> i == IDLER
            } by {
                if i != identity {
                    let _ = slot(s1.task_table@, i);
                } else if reg.len() > 0 {
                    assert(reg.contains(reg[0]));
                }
            }
            assert forall|i: int|
                0 <= i < NUM_TYPES && i != -1 && self.task_table@[i] is Some implies (
            #[trigger] slot(self.task_table@, i)).idle_ok() by {
                if i != identity {
                    let _ = slot(s1.task_table@, i);
                }
            }
            assert forall|k: int| 0 <= k < reg2.len() implies #[trigger] reg2[k] < NUM_TYPES by {
                if k > 0 {
                    assert(reg2[k] == reg[k - 1]);
                }
            }
        }
    }

    fn create_device(
        &mut self,
        identity: usize,
        priority: usize,
        work_packet: Option<PacketBox>,
        state: TaskState,
    )
        requires
            old(self).list_ok(),
            old(self).idle_ok_except(-1),
            identity < NUM_TYPES,
            old(self).task_table@[identity as int] is None,
            routable(queue_view(work_packet)),
            state@.packet_pending ==> queue_view(work_packet).len() > 0,
        ensures
            final(self).list_ok(),
            final(self).idle_ok_except(-1),
            final(self).registered@ == seq![identity] + old(self).registered@,
            final(self).current_task == old(self).current_task,
            final(self).queue_packet_count == old(self).queue_packet_count,
            final(self).hold_count == old(self).hold_count,
            final(self).task(identity as int).spec_priority() == priority,
            final(self).task(identity as int).spec_function() is Device,
            final(self).task(identity as int).spec_state() == state@,
            final(self).task(identity as int).input_queue() == queue_view(work_packet),
            final(self).task(identity as int).spec_function()->Device_0.spec_pending() is None,
            forall|i: int|
                0 <= i < NUM_TYPES && i != identity ==> #[trigger] final(self).task_table@[i]
                    == old(self).task_table@[i],
    {
        let data = DeviceTaskDataRecord::default();
        self.create_task(identity, priority, work_packet, state, TaskFunction::Device(data));
    }

    fn create_handler(
        &mut self,
        identity: usize,
        priority: usize,
        work_packet: Option<PacketBox>,
        state: TaskState,
    )
        requires
            old(self).list_ok(),
            old(self).idle_ok_except(-1),
            identity < NUM_TYPES,
            old(self).task_table@[identity as int] is None,
            routable(queue_view(work_packet)),
            state@.packet_pending ==> queue_view(work_packet).len() > 0,
        ensures
            final(self).list_ok(),
            final(self).idle_ok_except(-1),
            final(self).registered@ == seq![identity] + old(self).registered@,
            final(self).current_task == old(self).current_task,
            final(self).queue_packet_count == old(self).queue_packet_count,
            final(self).hold_count == old(self).hold_count,
            final(self).task(identity as int).spec_priority() == priority,
            final(self).task(identity as int).spec_function() is Handler,
            final(self).task(identity as int).spec_state() == state@,
            final(self).task(identity as int).input_queue() == queue_view(work_packet),
            final(self).task(identity as int).spec_function()->Handler_0.work_queue() == Seq::<
                PacketView,
            >::empty(),
            final(self).task(identity as int).spec_function()->Handler_0.device_queue() == Seq::<
                PacketView,
            >::empty(),
            forall|i: int|
                0 <= i < NUM_TYPES && i != identity ==> #[trigger] final(self).task_table@[i]
                    == old(self).task_table@[i],
    {
        let data = HandlerTaskDataRecord::default();
        self.create_task(identity, priority, work_packet, state, TaskFunction::Handler(data));
    }

    fn create_idler(
        &mut self,
        identity: usize,
        priority: usize,
        work: Option<PacketBox>,
        state: TaskState,
    )
        requires
            old(self).list_ok(),
            old(self).idle_ok_except(-1),
            identity == IDLER,
            old(self).task_table@[identity as int] is None,
            routable(queue_view(work)),
            state@.packet_pending ==> queue_view(work).len() > 0,
        ensures
            final(self).list_ok(),
            final(self).idle_ok_except(-1),
            final(self).registered@ == seq![identity] + old(self).registered@,
            final(self).current_task == old(self).current_task,
            final(self).queue_packet_count == old(self).queue_packet_count,
            final(self).hold_count == old(self).hold_count,
            final(self).task(identity as int).spec_priority() == priority,
            final(self).task(identity as int).spec_function() is Idle,
            final(self).task(identity as int).spec_state() == state@,
            final(self).task(identity as int).input_queue() == queue_view(work),
            final(self).task(identity as int).spec_function()->Idle_0.spec_count() == IDLE_COUNT,
            final(self).task(identity as int).spec_function()->Idle_0.spec_control() == 1,
            forall|i: int|
                0 <= i < NUM_TYPES && i != identity ==> #[trigger] final(self).task_table@[i]
                    == old(self).task_table@[i],
    {
        let data = IdleTaskDataRecord::default();
        self.create_task(identity, priority, work, state, TaskFunction::Idle(data));
    }

    fn create_packet(link: Option<PacketBox>, identity: usize, kind: usize) -> (r: PacketBox)
        ensures
            r@ == (PacketView { identity, kind, datum: 0, data: seq![0usize, 0, 0, 0] }),
            queue_view(Some(r)) == seq![r@] + queue_view(link),
    {
        Packet::new_boxed(link, identity, kind)
    }

    fn create_worker(
        &mut self,
        identity: usize,
        priority: usize,
        work_packet: Option<PacketBox>,
        state: TaskState,
    )
        requires
            old(self).list_ok(),
            old(self).idle_ok_except(-1),
            identity < NUM_TYPES,
            old(self).task_table@[identity as int] is None,
            routable(queue_view(work_packet)),
            state@.packet_pending ==> queue_view(work_packet).len() > 0,
        ensures
            final(self).list_ok(),
            final(self).idle_ok_except(-1),
            final(self).registered@ == seq![identity] + old(self).registered@,
            final(self).current_task == old(self).current_task,
            final(self).queue_packet_count == old(self).queue_packet_count,
            final(self).hold_count == old(self).hold_count,
            final(self).task(identity as int).spec_priority() == priority,
            final(self).task(identity as int).spec_function() is Worker,
            final(self).task(identity as int).spec_state() == state@,
            final(self).task(identity as int).input_queue() == queue_view(work_packet),
            final(self).task(identity as int).spec_function()->Worker_0.spec_destination()
                == HANDLER_A,
            final(self).task(identity as int).spec_function()->Worker_0.spec_count() == 0,
            forall|i: int|
                0 <= i < NUM_TYPES && i != identity ==> #[trigger] final(self).task_table@[i]
                    == old(self).task_table@[i],
    {
        let data = WorkerTaskDataRecord::default();
        self.create_task(identity, priority, work_packet, state, TaskFunction::Worker(data));
    }

    /// The dispatch loop. Starting at the head of the task list, a task that
    /// holds, or waits without a packet, is skipped for the one after it;
    /// any other task is run, and what it asks for decides the task that
    /// runs next. The loop ends when no task is left to run, and is given up
    /// after `MAX_DISPATCHES` iterations; the result says whether it ended.
    fn schedule(&mut self) -> (finished: bool)
        requires
            old(self).wf(),
            old(self).queue_packet_count == 0,
            old(self).hold_count == 0,
        ensures
            final(self).wf(),
            finished == final(self).is_done(),
            final(self).registered == old(self).registered,
            final(self).task_list == old(self).task_list,
            forall|i: int|
                0 <= i < NUM_TYPES ==> (#[trigger] final(self).task(i)).spec_priority() == old(
                    self,
                ).task(i).spec_priority(),
            exists|trace: Seq<Scheduler>|
                {
                    &&& trace.len() >= 1
                    &&& (#[trigger] trace[0]).starts_from(*old(self))
                    &&& is_run(trace)
                    &&& trace.last() == *final(self)
                    &&& finished || trace.len() > MAX_DISPATCHES
                    &&& trace.len() <= MAX_DISPATCHES + 1
                    &&& forall|k: int| 0 <= k < trace.len() ==> (#[trigger] trace[k]).visits_registered()
                },
    {
        self.current_task = self.task_list;
        assert(self.task_table@[IDLER as int] is Some);
        assert(self.registered@.contains(IDLER));
        assert(self.registered@[0] < NUM_TYPES);
        let ghost mut trace: Seq<Scheduler> = seq![*self];
        proof {
            Self::lemma_wf_visits_registered(*self);
        }
        let mut fuel: usize = MAX_DISPATCHES;
        loop
            invariant
                self.wf(),
                self.queue_packet_count + self.hold_count + fuel <= MAX_DISPATCHES,
                self.registered == old(self).registered,
                self.task_list == old(self).task_list,
                forall|i: int|
                    0 <= i < NUM_TYPES ==> (#[trigger] self.task(i)).spec_priority() == old(
                        self,
                    ).task(i).spec_priority(),
                trace.len() >= 1,
                trace[0].starts_from(*old(self)),
                is_run(trace),
                trace.last() == *self,
                trace.len() + fuel == MAX_DISPATCHES + 1,
                forall|k: int| 0 <= k < trace.len() ==> (#[trigger] trace[k]).visits_registered(),
            decreases fuel,
        {
            match self.current_task {
                None => {
                    return true;
                },
                Some(c) => {
                    if fuel == 0 {
                        return false;
                    }
                    fuel = fuel - 1;
                    let ghost s0 = *self;
                    let ghost mut mid = s0;
                    if self.task_ref(c).is_task_holding_or_waiting() {
                        self.current_task = self.task_ref(c).get_link();
                    } else {
                        self.current_task_identity = c;
                        let ghost s1 = *self;
                        let action = self.find_task(c).run_task();
                        let ghost r0 = action;
                        proof {
                            Self::lemma_replace_task(&s1, self, c as int);
                        }
                        proof {
                            mid = *self;
                        }
                        self.current_task =
                        match action {
                            TaskAction::MarkWaiting => self.mark_waiting(),
                            TaskAction::HoldSelf => self.hold_self(),
                            TaskAction::QueuePacket(packet) => self.queue_packet(packet),
                            TaskAction::Release(identity) => self.release(identity),
                        };
                        assert(s0.runs_current(mid, r0));
                        assert(mid.performs(r0, *self));
                    }
                    assert(s0.steps_to(*self));
                    proof {
                        let old_trace = trace;
                        trace = trace.push(*self);
                        Self::lemma_wf_visits_registered(*self);
                        assert forall|k: int| 0 <= k < trace.len() implies (#[trigger] trace[
                            k]).visits_registered() by {
                            if k < old_trace.len() {
                                assert(old_trace[k].visits_registered());
                            }
                        }
                        assert forall|k: int| 0 <= k < trace.len() - 1 implies #[trigger] trace[k].steps_to(
                            trace[k + 1],
                        ) by {
                            if k < old_trace.len() - 1 {
                                assert(old_trace[k].steps_to(old_trace[k + 1]));
                            }
                        }
                    }
                    assert forall|i: int| 0 <= i < NUM_TYPES implies (#[trigger] self.task(
                        i,
                    )).spec_priority() == old(self).task(i).spec_priority() by {
                        Self::lemma_step_keeps_priorities(s0, *self, i);
                    }
                },
            }
        }
    }

    /// Sets up the canonical workload and runs it: the idle task, the worker
    /// with two work packets, two handlers with three device packets each,
    /// and two devices, registered in that order with rising priorities.
    /// Returns whether the run ended with the expected counts of packets
    /// handed off and of holds.
    pub fn start(&mut self) -> (r: bool)
        requires
            old(self).is_fresh(),
        ensures
            r == (final(self).is_done() && final(self).spec_queue_packet_count()
                == EXPECTED_QUEUE_PACKET_COUNT && final(self).spec_hold_count()
                == EXPECTED_HOLD_COUNT),
            exists|trace: Seq<Scheduler>|
                {
                    &&& trace.len() >= 1
                    &&& (#[trigger] trace[0]).is_canonical_start()
                    &&& is_run(trace)
                    &&& trace.last() == *final(self)
                    &&& final(self).is_done() || trace.len() > MAX_DISPATCHES
                    &&& trace.len() <= MAX_DISPATCHES + 1
                    &&& forall|k: int| 0 <= k < trace.len() ==> (#[trigger] trace[k]).visits_registered()
                },
    {
        self.create_idler(IDLER, 0, None, TaskState::create_running());
        let mut work_q = Self::create_packet(None, WORKER, WORK_PACKET_KIND);
        work_q = Self::create_packet(Some(work_q), WORKER, WORK_PACKET_KIND);
        assert(queue_view(Some(work_q)) =~= seq![
            fresh_packet(WORKER, WORK_PACKET_KIND),
            fresh_packet(WORKER, WORK_PACKET_KIND),
        ]);
        self.create_worker(WORKER, 1000, Some(work_q), TaskState::create_waiting_with_packet());
        work_q = Self::create_packet(None, DEVICE_A, DEVICE_PACKET_KIND);
        work_q = Self::create_packet(Some(work_q), DEVICE_A, DEVICE_PACKET_KIND);
        work_q = Self::create_packet(Some(work_q), DEVICE_A, DEVICE_PACKET_KIND);
        assert(queue_view(Some(work_q)) =~= seq![
            fresh_packet(DEVICE_A, DEVICE_PACKET_KIND),
            fresh_packet(DEVICE_A, DEVICE_PACKET_KIND),
            fresh_packet(DEVICE_A, DEVICE_PACKET_KIND),
        ]);
        self.create_handler(HANDLER_A, 2000, Some(work_q), TaskState::create_waiting_with_packet());
        work_q = Self::create_packet(None, DEVICE_B, DEVICE_PACKET_KIND);
        work_q = Self::create_packet(Some(work_q), DEVICE_B, DEVICE_PACKET_KIND);
        work_q = Self::create_packet(Some(work_q), DEVICE_B, DEVICE_PACKET_KIND);
        assert(queue_view(Some(work_q)) =~= seq![
            fresh_packet(DEVICE_B, DEVICE_PACKET_KIND),
            fresh_packet(DEVICE_B, DEVICE_PACKET_KIND),
            fresh_packet(DEVICE_B, DEVICE_PACKET_KIND),
        ]);
        self.create_handler(HANDLER_B, 3000, Some(work_q), TaskState::create_waiting_with_packet());
        self.create_device(DEVICE_A, 4000, None, TaskState::create_waiting());
        self.create_device(DEVICE_B, 5000, None, TaskState::create_waiting());
        assert(self.registered@ =~= seq![DEVICE_B, DEVICE_A, HANDLER_B, HANDLER_A, WORKER, IDLER]);
        assert(self.complete());
        let ghost setup = *self;
        let finished = self.schedule();
        proof {
            let trace = choose|trace: Seq<Scheduler>|
                {
                    &&& trace.len() >= 1
                    &&& (#[trigger] trace[0]).starts_from(setup)
                    &&& is_run(trace)
                    &&& trace.last() == *self
                    &&& finished || trace.len() > MAX_DISPATCHES
                    &&& trace.len() <= MAX_DISPATCHES + 1
                    &&& forall|k: int| 0 <= k < trace.len() ==> (#[trigger] trace[k]).visits_registered()
                };
            assert(trace[0].is_canonical_start());
        }
        finished && self.queue_packet_count == EXPECTED_QUEUE_PACKET_COUNT && self.hold_count
            == EXPECTED_HOLD_COUNT
    }
}

} // verus!
