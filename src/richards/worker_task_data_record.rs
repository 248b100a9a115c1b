use vstd::prelude::*;
use crate::richards::packet::{Packet, PacketBox, PacketView, DATA_SIZE};
use crate::richards::rb_object::{RBObject, HANDLER_A, HANDLER_B};
use crate::richards::task_action::TaskAction;

verus! {

/// Number of letters the worker cycles through.
pub const ALPHABET_SIZE: usize = 26;
/// Code of the letter `A`.
pub const LETTER_A: usize = 65;

/// Private data of the worker task: where the next packet goes, and the
/// last letter written (1 for `A` .. 26 for `Z`, 0 before the first).
pub struct WorkerTaskDataRecord {
    destination: usize,
    count: usize,
}

/// The handler that follows `d` in the worker's alternation.
pub open spec fn next_destination(d: usize) -> usize {
    if d == HANDLER_A {
        HANDLER_B
    } else {
        HANDLER_A
    }
}

/// Position in the alphabet (0 for `A`) of the first letter written after a
/// count of `c`.
pub open spec fn cycle_start(c: usize) -> int {
    if c >= ALPHABET_SIZE {
        0
    } else {
        c as int
    }
}

/// The `i`-th payload word written after a count of `c`.
pub open spec fn payload_letter(c: usize, i: int) -> usize {
    (LETTER_A + (cycle_start(c) + i) % (ALPHABET_SIZE as int)) as usize
}

/// The four payload words written after a count of `c`.
pub open spec fn payload_after(c: usize) -> Seq<usize> {
    Seq::new(DATA_SIZE as nat, |i: int| payload_letter(c, i))
}

/// The count left after one activation that started from a count of `c`.
pub open spec fn count_after(c: usize) -> usize {
    ((cycle_start(c) + 3) % (ALPHABET_SIZE as int) + 1) as usize
}

impl Default for WorkerTaskDataRecord {
    fn default() -> (r: Self)
        ensures
            r.spec_destination() == HANDLER_A,
            r.spec_count() == 0,
    {
        WorkerTaskDataRecord { destination: HANDLER_A, count: 0 }
    }
}

impl RBObject for WorkerTaskDataRecord {}

impl WorkerTaskDataRecord {
    pub closed spec fn spec_destination(&self) -> usize {
        self.destination
    }

    pub closed spec fn spec_count(&self) -> usize {
        self.count
    }

    pub fn get_count(&self) -> (r: usize)
        ensures
            r == self.spec_count(),
    {
        self.count
    }

    pub fn set_count(&mut self, count: usize)
        ensures
            final(self).spec_count() == count,
            final(self).spec_destination() == old(self).spec_destination(),
    {
        self.count = count;
    }

    pub fn get_destination(&self) -> (r: usize)
        ensures
            r == self.spec_destination(),
    {
        self.destination
    }

    pub fn set_destination(&mut self, destination: usize)
        ensures
            final(self).spec_destination() == destination,
            final(self).spec_count() == old(self).spec_count(),
    {
        self.destination = destination;
    }

    /// One activation of the worker with input `work` turns `self` into
    /// `next` and asks for `r`.
    pub open spec fn runs_to(self, work: Option<PacketBox>, next: Self, r: TaskAction) -> bool {
        &&& work is None ==> r is MarkWaiting && next == self
        &&& work is Some ==> {
            &&& next.spec_destination() == next_destination(self.spec_destination())
            &&& next.spec_count() == count_after(self.spec_count())
            &&& r is QueuePacket
            &&& r->QueuePacket_0@ == (PacketView {
                identity: next.spec_destination(),
                kind: work->0@.kind,
                datum: 0,
                data: payload_after(self.spec_count()),
            })
            &&& r->QueuePacket_0.rest() == work->0.rest()
        }
    }

    /// The worker's behaviour. Without a packet it waits. With one, it
    /// switches to the other handler, addresses the packet to it, resets its
    /// datum, fills its payload with the next four letters of the cycle
    /// `A..Z`, and sends it.
    pub fn run(&mut self, work: Option<PacketBox>) -> (r: TaskAction)
        ensures
            old(self).runs_to(work, *final(self), r),
    {
        match work {
            None => TaskAction::MarkWaiting,
            Some(work) => {
                let mut work = work;
                self.set_destination(
                    if HANDLER_A == self.get_destination() {
                        HANDLER_B
                    } else {
                        HANDLER_A
                    },
                );
                work.set_identity(self.get_destination());
                work.set_datum(0);
                let ghost c0 = old(self).spec_count();
                let ghost s = cycle_start(c0);
                let ghost w0 = work@;
                let ghost rest0 = work.rest();
                proof {
                    Packet::lemma_data_len(&*work);
                }
                let mut i: usize = 0;
                while i < DATA_SIZE
                    invariant
                        0 <= i <= DATA_SIZE,
                        s == cycle_start(c0),
                        i == 0 ==> self.spec_count() == c0,
                        i > 0 ==> self.spec_count() == (s + i - 1) % (ALPHABET_SIZE as int) + 1,
                        self.spec_destination() == next_destination(old(self).spec_destination()),
                        work@.identity == w0.identity,
                        work@.kind == w0.kind,
                        work@.datum == 0,
                        work@.data.len() == DATA_SIZE,
                        forall|j: int| 0 <= j < i ==> work@.data[j] == payload_letter(c0, j),
                        work.rest() == rest0,
                    decreases DATA_SIZE - i,
                {
                    let next: usize = if self.get_count() >= ALPHABET_SIZE {
                        1
                    } else {
                        self.get_count() + 1
                    };
                    self.set_count(next);
                    let data = work.get_data_mut();
                    data[i] = LETTER_A + self.get_count() - 1;
                    i = i + 1;
                }
                assert(work@.data =~= payload_after(c0));
                TaskAction::QueuePacket(work)
            },
        }
    }
}

/// The count after `n` activations with a packet, from a count of `c`.
pub open spec fn count_after_runs(c: usize, n: nat) -> usize
    decreases n,
{
    if n == 0 {
        c
    } else {
        count_after(count_after_runs(c, (n - 1) as nat))
    }
}

/// The destination after `n` activations with a packet, from `d`.
pub open spec fn destination_after_runs(d: usize, n: nat) -> usize
    decreases n,
{
    if n == 0 {
        d
    } else {
        next_destination(destination_after_runs(d, (n - 1) as nat))
    }
}

/// Consecutive activations of a fresh worker write the alphabet in a
/// cycle: activation `n` (from 0) writes the letters at positions
/// `4n .. 4n + 3` of `A..Z A..Z ...`, and sends to handler B, then A, then
/// B again, and so on.
pub proof fn lemma_payload_rotation(n: nat)
    ensures
        cycle_start(count_after_runs(0, n)) == (4 * n as int) % (ALPHABET_SIZE as int),
        forall|i: int|
            0 <= i < DATA_SIZE ==> #[trigger] payload_after(count_after_runs(0, n))[i] == LETTER_A
                + (4 * n as int + i) % (ALPHABET_SIZE as int),
        next_destination(destination_after_runs(HANDLER_A, n)) == if n % 2 == 0 {
            HANDLER_B
        } else {
            HANDLER_A
        },
    decreases n,
{
    if n > 0 {
        lemma_payload_rotation((n - 1) as nat);
        let c = count_after_runs(0, (n - 1) as nat);
        let s = cycle_start(c);
        assert(0 <= s < 26);
        assert(((s + 3) % 26 + 1) % 26 == (s + 4) % 26);
        assert(((4 * (n - 1) as int) % 26 + 4) % 26 == (4 * n as int) % 26) by {
            vstd::arithmetic::div_mod::lemma_add_mod_noop(4 * (n - 1) as int, 4, 26);
        }
    }
    assert forall|i: int| 0 <= i < DATA_SIZE implies #[trigger] payload_after(
        count_after_runs(0, n),
    )[i] == LETTER_A + (4 * n as int + i) % (ALPHABET_SIZE as int) by {
        let s = cycle_start(count_after_runs(0, n));
        vstd::arithmetic::div_mod::lemma_add_mod_noop(4 * n as int, i, 26);
        vstd::arithmetic::div_mod::lemma_add_mod_noop(s, i, 26);
    }
}

} // verus!
