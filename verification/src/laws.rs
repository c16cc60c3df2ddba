//! What holds of a status over any number of updates.
//!
//! The laws are stated of the view: by the contracts of the status type they
//! hold of every status that is packed, read and updated through it.

use vstd::prelude::*;
use crate::layout::{STATUS_MAX_RETRY, STATUS_OK};
use crate::model::{StatusView, all_final, is_final};

verus! {

/// Slot values that fit three bits come back unchanged from the status that
/// packs them.
pub proof fn lemma_slots_round_trip(values: Seq<u32>)
    requires
        forall|i: int| 0 <= i < values.len() ==> values[i] <= 7,
    ensures
        StatusView::packed(values).slots == values,
{
}

/// Updates keep the number of slots and the spare bits.
pub proof fn lemma_after_keeps_shape(status: StatusView, reports: Seq<Seq<bool>>)
    ensures
        status.after(reports).slots.len() == status.slots.len(),
        status.after(reports).spare == status.spare,
    decreases reports.len(),
{
    if reports.len() > 0 {
        lemma_after_keeps_shape(status, reports.drop_last());
    }
}

/// A slot that holds a final value, given up or succeeded, keeps it through
/// every later update, whatever is reported for its subtask. In particular a
/// slot once at [`STATUS_OK`] stays there.
pub proof fn lemma_final_slot_stays(status: StatusView, reports: Seq<Seq<bool>>, i: int)
    requires
        0 <= i < status.slots.len(),
        is_final(status.slots[i]),
    ensures
        status.after(reports).slots[i] == status.slots[i],
        status.slots[i] == STATUS_OK ==> status.after(reports).slots[i] == STATUS_OK,
    decreases reports.len(),
{
    if reports.len() > 0 {
        lemma_final_slot_stays(status, reports.drop_last(), i);
        lemma_after_keeps_shape(status, reports.drop_last());
    }
}

/// While only failures are reported for a subtask whose slot starts at or
/// below [`STATUS_MAX_RETRY`], the slot counts them up to
/// [`STATUS_MAX_RETRY`] and no further: it never exceeds that value, and
/// once there it stays.
pub proof fn lemma_failures_stop_at_max_retry(
    status: StatusView,
    reports: Seq<Seq<bool>>,
    i: int,
)
    requires
        0 <= i < status.slots.len(),
        status.slots[i] <= STATUS_MAX_RETRY,
        forall|k: int| 0 <= k < reports.len() ==> !(#[trigger] reports[k])[i],
    ensures
        status.after(reports).slots[i] <= STATUS_MAX_RETRY,
        status.slots[i] + reports.len() <= STATUS_MAX_RETRY ==> status.after(reports).slots[i]
            == status.slots[i] + reports.len(),
        status.slots[i] + reports.len() >= STATUS_MAX_RETRY ==> status.after(reports).slots[i]
            == STATUS_MAX_RETRY,
    decreases reports.len(),
{
    if reports.len() > 0 {
        let earlier = reports.drop_last();
        assert forall|k: int| 0 <= k < earlier.len() implies !(#[trigger] earlier[k])[i] by {
            assert(earlier[k] == reports[k]);
        }
        lemma_failures_stop_at_max_retry(status, earlier, i);
        lemma_after_keeps_shape(status, earlier);
        assert(!reports[reports.len() - 1][i]);
    }
}

/// Once every slot holds a final value, this stays so through every later
/// update.
pub proof fn lemma_all_final_stays(status: StatusView, reports: Seq<Seq<bool>>)
    requires
        all_final(status.slots),
    ensures
        all_final(status.after(reports).slots),
{
    lemma_after_keeps_shape(status, reports);
    assert forall|i: int| 0 <= i < status.after(reports).slots.len() implies is_final(
        #[trigger] status.after(reports).slots[i],
    ) by {
        lemma_final_slot_stays(status, reports, i);
    }
}

/// After any number of updates, at least one, the completion flag is set
/// exactly if it was set at the start or every slot holds a final value: an
/// update sets it as soon as no subtask is left to run, and none clears it.
pub proof fn lemma_completed_when_all_final(status: StatusView, reports: Seq<Seq<bool>>)
    requires
        reports.len() >= 1,
    ensures
        status.after(reports).completed == (status.completed || all_final(
            status.after(reports).slots,
        )),
    decreases reports.len(),
{
    let earlier = reports.drop_last();
    if earlier.len() >= 1 {
        lemma_completed_when_all_final(status, earlier);
        if all_final(status.after(earlier).slots) {
            lemma_all_final_stays(status.after(earlier), seq![reports.last()]);
            assert(status.after(earlier).after(seq![reports.last()]) == status.after(
                reports,
            )) by {
                lemma_after_one(status.after(earlier), reports.last());
            }
        }
    } else {
        assert(status.after(earlier) == status);
    }
}

/// The completion flag, once set, stays set through every later update.
pub proof fn lemma_completed_stays(status: StatusView, reports: Seq<Seq<bool>>)
    requires
        status.completed,
    ensures
        status.after(reports).completed,
    decreases reports.len(),
{
    if reports.len() > 0 {
        lemma_completed_stays(status, reports.drop_last());
    }
}

/// A run of one update is that update.
pub proof fn lemma_after_one(status: StatusView, ok: Seq<bool>)
    ensures
        status.after(seq![ok]) == status.updated(ok),
{
    assert(status.after(seq![ok].drop_last()) == status);
}

} // verus!
