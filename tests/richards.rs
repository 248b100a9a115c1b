use awfy::richards::device_task_data_record::DeviceTaskDataRecord;
use awfy::richards::handler_task_data_record::HandlerTaskDataRecord;
use awfy::richards::idle_task_data_record::IdleTaskDataRecord;
use awfy::richards::packet::{Packet, PacketBox};
use awfy::richards::rb_object::{
    RBObject, DEVICE_A, DEVICE_B, DEVICE_PACKET_KIND, HANDLER_A, HANDLER_B, IDLER, WORKER,
    WORK_PACKET_KIND,
};
use awfy::richards::scheduler::Scheduler;
use awfy::richards::task_action::TaskAction;
use awfy::richards::task_control_block::{TaskControlBlock, TaskFunction};
use awfy::richards::task_state::TaskState;
use awfy::richards::worker_task_data_record::WorkerTaskDataRecord;
use awfy::richards::Richards;

fn identities(queue: &Option<PacketBox>) -> Vec<usize> {
    let mut out = Vec::new();
    let mut cursor = queue;
    while let Some(p) = cursor {
        out.push(p.get_identity());
        cursor = p.get_link();
    }
    out
}

fn queued_packet(action: TaskAction) -> PacketBox {
    match action {
        TaskAction::QueuePacket(p) => p,
        _ => panic!("expected a packet to be queued"),
    }
}

#[test]
fn canonical_run_gives_expected_counts() {
    let mut scheduler = Scheduler::default();
    assert!(scheduler.start());
}

#[test]
fn repeated_runs_agree() {
    for _ in 0..3 {
        let mut scheduler = Scheduler::default();
        assert!(scheduler.start());
    }
}

#[test]
fn richards_benchmark_verifies() {
    let bench = Richards::default();
    let result = bench.benchmark();
    assert!(bench.verify_result(result));
    assert!(!bench.verify_result(false));
}

#[test]
fn append_to_empty_queue_gives_single_packet() {
    let tail = Packet::new_boxed(None, 9, WORK_PACKET_KIND);
    let p = Packet::new_boxed(Some(tail), 3, WORK_PACKET_KIND);
    let q = Packet::append(p, None);
    assert_eq!(identities(&Some(q)), vec![3]);
}

#[test]
fn append_keeps_order_and_puts_packet_last() {
    let mut q = Packet::new_boxed(None, 3, DEVICE_PACKET_KIND);
    q = Packet::new_boxed(Some(q), 2, DEVICE_PACKET_KIND);
    q = Packet::new_boxed(Some(q), 1, DEVICE_PACKET_KIND);
    let extra = Packet::new_boxed(None, 5, DEVICE_PACKET_KIND);
    let p = Packet::new_boxed(Some(extra), 4, DEVICE_PACKET_KIND);
    let r = Packet::append(p, Some(q));
    assert_eq!(identities(&Some(r)), vec![1, 2, 3, 4]);
}

#[test]
fn append_link_attaches_after_last_packet() {
    let mut p = Packet::new(None, 1, WORK_PACKET_KIND);
    p.append_link(Some(Packet::new_boxed(None, 2, WORK_PACKET_KIND)));
    p.append_link(Some(Packet::new_boxed(None, 3, WORK_PACKET_KIND)));
    assert_eq!(identities(p.get_link()), vec![2, 3]);
    let rest = p.take_link();
    assert_eq!(identities(&rest), vec![2, 3]);
    assert!(p.get_link().is_none());
}

#[test]
fn packet_accessors() {
    let mut p = Packet::new(None, DEVICE_A, DEVICE_PACKET_KIND);
    assert_eq!(p.get_identity(), DEVICE_A);
    assert_eq!(p.get_kind(), DEVICE_PACKET_KIND);
    assert_eq!(p.get_datum(), 0);
    assert_eq!(p.get_data(), &[0, 0, 0, 0]);
    p.set_datum(7);
    p.set_identity(HANDLER_B);
    p.get_data_mut()[2] = 66;
    assert_eq!(p.get_datum(), 7);
    assert_eq!(p.get_identity(), HANDLER_B);
    assert_eq!(p.get_data(), &[0, 0, 66, 0]);
    p.set_link(Some(Packet::new_boxed(None, 4, 0)));
    assert_eq!(identities(p.get_link()), vec![4]);
}

fn state_with(pending: bool, waiting: bool, holding: bool) -> TaskState {
    let mut s = TaskState::default();
    s.set_packet_pending(pending);
    s.set_task_waiting(waiting);
    s.set_task_holding(holding);
    s
}

#[test]
fn runnable_classification_for_all_flag_combinations() {
    for bits in 0..8u32 {
        let pending = bits & 1 != 0;
        let waiting = bits & 2 != 0;
        let holding = bits & 4 != 0;
        let s = state_with(pending, waiting, holding);
        let runnable = !holding && !(waiting && !pending);
        assert_eq!(s.is_task_holding_or_waiting(), !runnable, "bits {bits}");
        assert_eq!(s.is_packet_pending(), pending);
        assert_eq!(s.is_task_waiting(), waiting);
        assert_eq!(s.is_task_holding(), holding);
        assert_eq!(s.is_running(), !pending && !waiting && !holding);
        assert_eq!(s.is_waiting(), !pending && waiting && !holding);
        assert_eq!(s.is_waiting_with_packet(), pending && waiting && !holding);
    }
}

#[test]
fn holding_task_is_never_runnable() {
    let s = state_with(true, false, true);
    assert!(s.is_task_holding_or_waiting());
    let s = state_with(true, true, true);
    assert!(s.is_task_holding_or_waiting());
}

#[test]
fn task_state_transitions() {
    let d = TaskState::default();
    assert!(d.is_packet_pending() && !d.is_task_waiting() && !d.is_task_holding());
    let s = TaskState::create_running();
    assert!(s.is_running());
    let s = TaskState::create_waiting();
    assert!(s.is_waiting());
    let s = TaskState::create_waiting_with_packet();
    assert!(s.is_waiting_with_packet());
    let s = TaskState::create_packet_pending();
    assert!(s.is_packet_pending() && !s.is_task_waiting() && !s.is_task_holding());
    let mut s = state_with(false, true, true);
    s.packet_pending();
    assert!(s.is_packet_pending() && !s.is_task_waiting() && !s.is_task_holding());
    s.waiting();
    assert!(s.is_waiting());
    s.waiting_with_packet();
    assert!(s.is_waiting_with_packet());
    s.running();
    assert!(s.is_running());
}

fn device_tcb(identity: usize, priority: usize) -> TaskControlBlock {
    TaskControlBlock::new(
        None,
        identity,
        priority,
        None,
        TaskState::create_running(),
        TaskFunction::Device(DeviceTaskDataRecord::default()),
    )
}

#[test]
fn priority_hand_off() {
    let a = device_tcb(DEVICE_A, 10);
    let mut b = device_tcb(DEVICE_B, 20);
    let mut c = device_tcb(HANDLER_A, 5);
    let p = Packet::new_boxed(None, DEVICE_B, DEVICE_PACKET_KIND);
    assert_eq!(b.add_input_and_check_priority(p, a.get_identity(), a.get_priority()), DEVICE_B);
    let p = Packet::new_boxed(None, HANDLER_A, DEVICE_PACKET_KIND);
    assert_eq!(c.add_input_and_check_priority(p, a.get_identity(), a.get_priority()), DEVICE_A);
    // a second packet joins the queue and never preempts
    let p = Packet::new_boxed(None, DEVICE_B, DEVICE_PACKET_KIND);
    assert_eq!(b.add_input_and_check_priority(p, a.get_identity(), a.get_priority()), DEVICE_A);
}

#[test]
fn add_input_marks_packet_pending() {
    let mut t = TaskControlBlock::new(
        Some(IDLER),
        WORKER,
        1000,
        None,
        TaskState::create_waiting(),
        TaskFunction::Worker(WorkerTaskDataRecord::default()),
    );
    assert!(t.is_task_holding_or_waiting());
    let p = Packet::new_boxed(None, WORKER, WORK_PACKET_KIND);
    assert_eq!(t.add_input_and_check_priority(p, IDLER, 0), WORKER);
    assert!(!t.is_task_holding_or_waiting());
    assert_eq!(t.get_link(), Some(IDLER));
    assert_eq!(t.get_priority(), 1000);
}

#[test]
fn set_task_flags_on_tcb() {
    let mut t = device_tcb(DEVICE_A, 4000);
    assert!(!t.is_task_holding_or_waiting());
    t.set_task_holding(true);
    assert!(t.is_task_holding_or_waiting());
    t.set_task_holding(false);
    t.set_task_waiting(true);
    assert!(t.is_task_holding_or_waiting());
}

#[test]
fn run_task_dequeues_one_packet() {
    let mut q = Packet::new_boxed(None, WORKER, WORK_PACKET_KIND);
    q = Packet::new_boxed(Some(q), WORKER, WORK_PACKET_KIND);
    let mut t = TaskControlBlock::new(
        None,
        WORKER,
        1000,
        Some(q),
        TaskState::create_waiting_with_packet(),
        TaskFunction::Worker(WorkerTaskDataRecord::default()),
    );
    let p = queued_packet(t.run_task());
    assert_eq!(p.get_identity(), HANDLER_B);
    assert_eq!(p.get_data(), &[65, 66, 67, 68]);
    // one packet left: the task has a packet pending and is still runnable
    assert!(!t.is_task_holding_or_waiting());
    // not waiting: the next run gets no message, so the worker asks to wait
    assert!(matches!(t.run_task(), TaskAction::MarkWaiting));
    t.set_task_waiting(true);
    let p = queued_packet(t.run_task());
    assert_eq!(p.get_identity(), HANDLER_A);
    assert_eq!(p.get_data(), &[69, 70, 71, 72]);
}

#[test]
fn worker_payload_rotation() {
    let mut w = WorkerTaskDataRecord::default();
    let mut letters = Vec::new();
    for n in 0..30usize {
        let p = Packet::new_boxed(None, WORKER, WORK_PACKET_KIND);
        let sent = queued_packet(w.run(Some(p)));
        let expected = if n % 2 == 0 { HANDLER_B } else { HANDLER_A };
        assert_eq!(sent.get_identity(), expected);
        assert_eq!(w.get_destination(), expected);
        assert_eq!(sent.get_datum(), 0);
        letters.extend_from_slice(sent.get_data());
    }
    for (k, letter) in letters.iter().enumerate() {
        assert_eq!(*letter, 65 + k % 26);
    }
    assert_eq!(letters[25], 90);
    assert_eq!(letters[26], 65);
}

#[test]
fn worker_without_packet_waits() {
    let mut w = WorkerTaskDataRecord::default();
    assert!(matches!(w.run(None), TaskAction::MarkWaiting));
    assert_eq!(w.get_count(), 0);
    assert_eq!(w.get_destination(), HANDLER_A);
}

#[test]
fn worker_count_past_alphabet_restarts_at_a() {
    let mut w = WorkerTaskDataRecord::default();
    w.set_count(40);
    w.set_destination(HANDLER_B);
    let sent = queued_packet(w.run(Some(Packet::new_boxed(None, WORKER, WORK_PACKET_KIND))));
    assert_eq!(sent.get_data(), &[65, 66, 67, 68]);
    assert_eq!(w.get_count(), 4);
    assert_eq!(sent.get_identity(), HANDLER_A);
}

#[test]
fn idle_countdown_and_control_word() {
    let mut idle = IdleTaskDataRecord::default();
    assert_eq!(idle.get_count(), 10000);
    assert_eq!(idle.get_control(), 1);
    assert!(matches!(idle.run(), TaskAction::Release(DEVICE_B)));
    assert_eq!(idle.get_control(), 53256);
    assert!(matches!(idle.run(), TaskAction::Release(DEVICE_A)));
    assert_eq!(idle.get_control(), 26628);
    assert_eq!(idle.get_count(), 9998);
    idle.set_count(1);
    idle.set_control(5);
    assert!(matches!(idle.run(), TaskAction::HoldSelf));
    assert_eq!(idle.get_count(), 0);
    assert_eq!(idle.get_control(), 5);
}

#[test]
fn device_stores_and_returns_packet() {
    let mut d = DeviceTaskDataRecord::default();
    assert!(matches!(d.run(None), TaskAction::MarkWaiting));
    let p = Packet::new_boxed(None, HANDLER_A, DEVICE_PACKET_KIND);
    assert!(matches!(d.run(Some(p)), TaskAction::HoldSelf));
    let back = queued_packet(d.run(None));
    assert_eq!(back.get_identity(), HANDLER_A);
    assert!(d.take_pending().is_none());
    d.set_pending(Some(Packet::new_boxed(None, 2, 0)));
    assert_eq!(d.take_pending().map(|p| p.get_identity()), Some(2));
}

#[test]
fn handler_passes_payload_word_to_device_packet() {
    let mut h = HandlerTaskDataRecord::default();
    let mut work = Packet::new_boxed(None, WORKER, WORK_PACKET_KIND);
    work.get_data_mut()[0] = 70;
    work.get_data_mut()[1] = 71;
    assert!(matches!(h.run(Some(work)), TaskAction::MarkWaiting));
    let dev = Packet::new_boxed(None, DEVICE_A, DEVICE_PACKET_KIND);
    let out = queued_packet(h.run(Some(dev)));
    assert_eq!(out.get_identity(), DEVICE_A);
    assert_eq!(out.get_datum(), 70);
    let dev = Packet::new_boxed(None, DEVICE_A, DEVICE_PACKET_KIND);
    let out = queued_packet(h.run(Some(dev)));
    assert_eq!(out.get_datum(), 71);
    let w = h.take_work_in().unwrap();
    assert_eq!(w.get_datum(), 2);
}

#[test]
fn handler_forwards_finished_work_packet() {
    let mut h = HandlerTaskDataRecord::default();
    let mut work = Packet::new_boxed(None, WORKER, WORK_PACKET_KIND);
    work.set_datum(4);
    let second = Packet::new_boxed(None, 7, WORK_PACKET_KIND);
    h.work_in_add(work);
    h.work_in_add(second);
    let out = queued_packet(h.run(None));
    assert_eq!(out.get_identity(), WORKER);
    assert!(out.get_link().is_none());
    assert_eq!(identities(&h.take_work_in()), vec![7]);
}

#[test]
fn handler_queues_by_kind() {
    let mut h = HandlerTaskDataRecord::default();
    h.device_in_add(Packet::new_boxed(None, 1, DEVICE_PACKET_KIND));
    h.device_in_add(Packet::new_boxed(None, 2, DEVICE_PACKET_KIND));
    assert_eq!(identities(&h.take_device_in()), vec![1, 2]);
    h.set_device_in(Some(Packet::new_boxed(None, 3, DEVICE_PACKET_KIND)));
    h.set_work_in(None);
    assert!(matches!(h.run(None), TaskAction::MarkWaiting));
    assert_eq!(identities(&h.take_device_in()), vec![3]);
    assert!(h.take_work_in().is_none());
}
