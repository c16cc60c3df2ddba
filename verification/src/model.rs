//! What a packed status holds, as plain values, and how it changes.
//!
//! A [`StatusView`] is the status without its encoding: the slot values in
//! order, the spare bits, and the completion flag. What packing and updating
//! do is defined here, on these values; the status type is proved to do the
//! same to the word that encodes them.

use vstd::prelude::*;
use crate::layout::{STATUS_MAX_RETRY, STATUS_OK};

verus! {

/// What can be read from a status.
#[verifier::ext_equal]
pub struct StatusView {
    /// The value of each slot, 0 to 7, slot 0 first.
    pub slots: Seq<u32>,
    /// The bits between the last slot and the completion flag, as a number.
    pub spare: u32,
    /// The completion flag.
    pub completed: bool,
}

/// Whether a slot value is final: the subtask was given up or has succeeded,
/// and is not to be run again.
pub open spec fn is_final(v: u32) -> bool {
    v >= STATUS_MAX_RETRY
}

/// Whether every one of `slots` holds a final value.
pub open spec fn all_final(slots: Seq<u32>) -> bool {
    forall|i: int| 0 <= i < slots.len() ==> is_final(#[trigger] slots[i])
}

/// What a slot holding `v` holds after one more result for its subtask: a
/// final value stays, a success gives [`STATUS_OK`], a failure counts.
pub open spec fn next_slot(v: u32, ok: bool) -> u32 {
    if is_final(v) {
        v
    } else if ok {
        STATUS_OK
    } else {
        (v + 1) as u32
    }
}

impl StatusView {
    /// The status of `n` subtasks of which none has been tried: every slot at
    /// 0, no spare bit set, not completed.
    pub open spec fn fresh(n: nat) -> StatusView {
        StatusView { slots: Seq::new(n, |i: int| 0u32), spare: 0, completed: false }
    }

    /// The status that packing `values` gives: each slot holds the low three
    /// bits of its value, no spare bit is set, and the completion flag says
    /// whether every slot holds a final value.
    pub open spec fn packed(values: Seq<u32>) -> StatusView {
        let slots = Seq::new(values.len(), |i: int| values[i] % 8);
        StatusView { slots, spare: 0, completed: all_final(slots) }
    }

    /// For each subtask, whether it should still be run.
    pub open spec fn should_run(self) -> Seq<bool> {
        Seq::new(self.slots.len(), |i: int| !is_final(self.slots[i]))
    }

    /// `self` with the value of slot `i` replaced by `v`.
    pub open spec fn with_slot(self, i: int, v: u32) -> StatusView {
        StatusView { slots: self.slots.update(i, v), ..self }
    }

    /// `self` with the completion flag replaced by `completed`.
    pub open spec fn with_completed(self, completed: bool) -> StatusView {
        StatusView { completed, ..self }
    }

    /// `self` after one update, where `ok[i]` says whether the result
    /// reported for subtask `i` was a success: each slot moves by
    /// [`next_slot`], the spare bits stay, and the completion flag is set if
    /// it was set before or if every slot now holds a final value.
    pub open spec fn updated(self, ok: Seq<bool>) -> StatusView {
        let slots = Seq::new(self.slots.len(), |i: int| next_slot(self.slots[i], ok[i]));
        StatusView { slots, spare: self.spare, completed: self.completed || all_final(slots) }
    }

    /// `self` after the updates of `reports`, one after the other.
    pub open spec fn after(self, reports: Seq<Seq<bool>>) -> StatusView
        decreases reports.len(),
    {
        if reports.len() == 0 {
            self
        } else {
            self.after(reports.drop_last()).updated(reports.last())
        }
    }
}

} // verus!
