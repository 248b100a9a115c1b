use vstd::prelude::*;
use crate::richards::rb_object::{RBObject, DEVICE_A, DEVICE_B};
use crate::richards::task_action::TaskAction;

verus! {

/// Number of activations of the idle task before it holds for good.
pub const IDLE_COUNT: usize = 10000;
/// Value that the idle task mixes into its control word on odd steps.
pub const CONTROL_MASK: usize = 53256;

/// Private data of the idle task: a control word and a countdown.
pub struct IdleTaskDataRecord {
    control: usize,
    count: usize,
}

impl Default for IdleTaskDataRecord {
    fn default() -> (r: Self)
        ensures
            r.spec_control() == 1,
            r.spec_count() == IDLE_COUNT,
    {
        IdleTaskDataRecord { control: 1, count: IDLE_COUNT }
    }
}

impl RBObject for IdleTaskDataRecord {}

impl IdleTaskDataRecord {
    pub closed spec fn spec_control(&self) -> usize {
        self.control
    }

    pub closed spec fn spec_count(&self) -> usize {
        self.count
    }

    pub fn get_control(&self) -> (r: usize)
        ensures
            r == self.spec_control(),
    {
        self.control
    }

    pub fn set_control(&mut self, control: usize)
        ensures
            final(self).spec_control() == control,
            final(self).spec_count() == old(self).spec_count(),
    {
        self.control = control;
    }

    pub fn get_count(&self) -> (r: usize)
        ensures
            r == self.spec_count(),
    {
        self.count
    }

    pub fn set_count(&mut self, count: usize)
        ensures
            final(self).spec_count() == count,
            final(self).spec_control() == old(self).spec_control(),
    {
        self.count = count;
    }

    /// One activation of the idle task turns `self` into `next` and asks for `r`.
    pub open spec fn runs_to(self, next: Self, r: TaskAction) -> bool {
        &&& next.spec_count() == self.spec_count() - 1
        &&& next.spec_count() == 0 ==> r is HoldSelf && next.spec_control() == self.spec_control()
        &&& next.spec_count() != 0 && self.spec_control() & 1 == 0 ==> r == TaskAction::Release(
            DEVICE_A,
        ) && next.spec_control() == self.spec_control() / 2
        &&& next.spec_count() != 0 && self.spec_control() & 1 != 0 ==> r == TaskAction::Release(
            DEVICE_B,
        ) && next.spec_control() == (self.spec_control() / 2) ^ CONTROL_MASK
    }

    /// The idle task's behaviour: count down; hold at zero; otherwise shift
    /// the control word and release one of the two devices, chosen by the
    /// bit shifted out.
    pub fn run(&mut self) -> (r: TaskAction)
        requires
            old(self).spec_count() > 0,
        ensures
            old(self).runs_to(*final(self), r),
    {
        self.set_count(self.get_count() - 1);
        if 0 == self.get_count() {
            TaskAction::HoldSelf
        } else if 0 == self.get_control() & 1 {
            self.set_control(self.get_control() / 2);
            TaskAction::Release(DEVICE_A)
        } else {
            self.set_control((self.get_control() / 2) ^ CONTROL_MASK);
            TaskAction::Release(DEVICE_B)
        }
    }
}

} // verus!
