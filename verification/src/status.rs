//! The packed status of a fixed number of subtasks.
//!
//! A [`Status<N>`] tracks `N` subtasks of one job in a single `u32`. Each
//! subtask has a slot of three bits: 0 to 3 count its failed attempts, 4
//! ([`STATUS_MAX_RETRY`]) says that it was given up, 7 ([`STATUS_OK`]) that
//! it succeeded. The highest bit of the word records that every subtask has
//! reached one of the two final values.
//!
//! Contracts speak of a status through its view, a [`StatusView`]: the slot
//! values, the spare bits between the last slot and the flag, and the flag.
//! The view determines the word ([`Status::lemma_view_determines`]).

use vstd::prelude::*;
use vstd::std_specs::convert::{FromSpec, FromSpecImpl};
use crate::layout::{
    MAX_SLOTS, STATUS_COMPLETED, STATUS_MAX_RETRY, STATUS_OK, completed_of, lemma_fill_slot,
    lemma_flag, lemma_increment_slot, lemma_low_bits, lemma_slot_range, lemma_with_slot,
    lemma_word_determined, lemma_zero_word, slot_of, spare_of,
};
use crate::model::{StatusView, all_final, is_final, next_slot};

verus! {

/// The error type of `anyhow`, which a failed subtask's result carries.
/// Nothing is claimed of it: of a result, only whether it is `Ok` or `Err` is
/// ever read.
#[verifier::external_type_specification]
#[verifier::external_body]
pub struct ExAnyhowError(anyhow::Error);

/// The state of `N` subtasks, three bits each from the lowest bit up, and the
/// completion flag in the highest bit. `N` is at most [`MAX_SLOTS`].
#[derive(Clone, Copy)]
pub struct Status<const N: usize>(u32);

/// The five subtasks of a video: cover, video info, uploader's avatar,
/// uploader's info, download of the pages.
pub type VideoStatus = Status<5>;

/// The five subtasks of a page: cover, content, info, comments, subtitles.
pub type PageStatus = Status<5>;

/// For each result, whether it is a success.
pub open spec fn succeeded(results: Seq<Result<(), anyhow::Error>>) -> Seq<bool> {
    results.map_values(|r: Result<(), anyhow::Error>| r is Ok)
}

impl<const N: usize> View for Status<N> {
    type V = StatusView;

    /// What the word holds when read as `N` slots, spare bits and the flag.
    open spec fn view(&self) -> StatusView {
        StatusView {
            slots: Seq::new(N as nat, |i: int| slot_of(self.raw(), i)),
            spare: spare_of(self.raw(), N as int),
            completed: completed_of(self.raw()),
        }
    }
}

impl<const N: usize> Status<N> {
    /// The word as it is stored.
    pub closed spec fn raw(self) -> u32 {
        self.0
    }

    /// A status of at most [`MAX_SLOTS`] slots holds `N` slot values, each
    /// from 0 to 7.
    pub proof fn lemma_view_slots(self)
        requires
            N <= MAX_SLOTS,
        ensures
            self@.slots.len() == N,
            forall|i: int| 0 <= i < N ==> self@.slots[i] <= 7,
    {
        assert forall|i: int| 0 <= i < N implies self@.slots[i] <= 7 by {
            lemma_slot_range(self.raw(), i);
        }
    }

    /// The view determines the status: two statuses of at most
    /// [`MAX_SLOTS`] slots that hold the same slots, spare bits and flag are
    /// the same word.
    pub proof fn lemma_view_determines(self, other: Self)
        requires
            N <= MAX_SLOTS,
            self@ == other@,
        ensures
            self == other,
    {
        assert forall|i: int| 0 <= i < N implies slot_of(self.raw(), i) == slot_of(
            other.raw(),
            i,
        ) by {
            assert(other@.slots[i] == slot_of(other.raw(), i));
        }
        lemma_word_determined(self.raw(), other.raw(), N as int);
    }

    /// A stored word and the status made of it give each other back: the
    /// word of the status made of `r` is `r`, and making a status of the word
    /// of `self` gives `self`.
    pub proof fn lemma_raw_round_trip(self, r: u32)
        ensures
            <Self as FromSpec<u32>>::from_spec(r).raw() == r,
            <u32 as FromSpec<Self>>::from_spec(<Self as FromSpec<u32>>::from_spec(r)) == r,
            <Self as FromSpec<u32>>::from_spec(<u32 as FromSpec<Self>>::from_spec(self)) == self,
    {
    }

    /// Whether the completion flag is set.
    pub fn get_completed(&self) -> (completed: bool)
        ensures
            completed == self@.completed,
    {
        proof {
            lemma_flag(self.0);
        }
        self.0 >> 31 == 1
    }

    /// For each subtask, whether it should still be run: whether its slot is
    /// below [`STATUS_MAX_RETRY`].
    pub fn should_run(&self) -> (run: [bool; N])
        requires
            N <= MAX_SLOTS,
        ensures
            run@ == self@.should_run(),
            forall|i: int| 0 <= i < N ==> run[i] == (self@.slots[i] < STATUS_MAX_RETRY),
    {
        let mut result = [false; N];
        let mut i: usize = 0;
        while i < N
            invariant
                i <= N <= MAX_SLOTS,
                forall|j: int| 0 <= j < i ==> result[j] == (self@.slots[j] < STATUS_MAX_RETRY),
            decreases N - i,
        {
            result[i] = self.check_continue(i);
            i += 1;
        }
        result
    }

    /// Takes in one result for each subtask, `result[i]` for subtask `i`. A
    /// slot that holds a final value is left alone; otherwise a success sets
    /// it to [`STATUS_OK`] and a failure adds one to it. The completion flag
    /// is set once no subtask is left to run, and is never cleared.
    pub fn update_status(&mut self, result: &[Result<(), anyhow::Error>])
        requires
            N <= MAX_SLOTS,
            result.len() == N,
        ensures
            final(self)@ == old(self)@.updated(succeeded(result@)),
    {
        let ghost before = self@;
        let ghost ok = succeeded(result@);
        let mut i: usize = 0;
        while i < N
            invariant
                i <= N <= MAX_SLOTS,
                result.len() == N,
                ok == succeeded(result@),
                before.slots.len() == N,
                forall|j: int| 0 <= j < i ==> self@.slots[j] == next_slot(before.slots[j], ok[j]),
                forall|j: int| i <= j < N ==> self@.slots[j] == before.slots[j],
                self@.spare == before.spare,
                self@.completed == before.completed,
            decreases N - i,
        {
            self.set_result(&result[i], i);
            i += 1;
        }
        if self.none_to_run() {
            self.set_completed(true)
        }
    }

    /// Packs `N` slot values into a status. Of each value only the low three
    /// bits are kept. The completion flag is set if every slot then holds a
    /// final value.
    pub fn from_slots(slots: [u32; N]) -> (status: Self)
        requires
            N <= MAX_SLOTS,
        ensures
            status@ == StatusView::packed(slots@),
    {
        let mut result = Status::<N>::default();
        let mut i: usize = 0;
        while i < N
            invariant
                i <= N <= MAX_SLOTS,
                forall|j: int| 0 <= j < i ==> result@.slots[j] == slots@[j] % 8,
                result@.spare == 0,
                !result@.completed,
            decreases N - i,
        {
            result.set_status(i, slots[i]);
            i += 1;
        }
        assert(result@.slots =~= StatusView::packed(slots@).slots);
        if result.none_to_run() {
            result.set_completed(true);
        }
        result
    }

    /// The values of the `N` slots, in order.
    pub fn to_slots(self) -> (slots: [u32; N])
        requires
            N <= MAX_SLOTS,
        ensures
            slots@ == self@.slots,
    {
        let mut result = [0u32; N];
        let mut i: usize = 0;
        while i < N
            invariant
                i <= N <= MAX_SLOTS,
                forall|j: int| 0 <= j < i ==> result[j] == self@.slots[j],
            decreases N - i,
        {
            result[i] = self.get_status(i);
            i += 1;
        }
        result
    }

    /// Whether no subtask is left to run: whether [`Status::should_run`]
    /// says so of none.
    fn none_to_run(&self) -> (none: bool)
        requires
            N <= MAX_SLOTS,
        ensures
            none == all_final(self@.slots),
    {
        let run = self.should_run();
        let mut i: usize = 0;
        while i < N
            invariant
                i <= N,
                self@.slots.len() == N,
                forall|j: int| 0 <= j < N ==> run[j] == !is_final(self@.slots[j]),
                forall|j: int| 0 <= j < i ==> is_final(self@.slots[j]),
            decreases N - i,
        {
            if run[i] {
                return false;
            }
            i += 1;
        }
        true
    }

    /// Sets or clears the completion flag.
    fn set_completed(&mut self, completed: bool)
        requires
            N <= MAX_SLOTS,
        ensures
            final(self)@ == old(self)@.with_completed(completed),
    {
        proof {
            lemma_flag(self.0);
        }
        if completed {
            self.0 |= STATUS_COMPLETED;
        } else {
            self.0 &= !STATUS_COMPLETED;
        }
    }

    /// The value of the slot at `offset`.
    fn get_status(&self, offset: usize) -> (status: u32)
        requires
            offset < N <= MAX_SLOTS,
        ensures
            status == self@.slots[offset as int],
    {
        (self.0 >> (offset * 3)) & 0b111
    }

    /// Writes the low three bits of `status` into the slot at `offset`.
    fn set_status(&mut self, offset: usize, status: u32)
        requires
            offset < N <= MAX_SLOTS,
        ensures
            final(self)@ == old(self)@.with_slot(offset as int, (status % 8) as u32),
    {
        proof {
            lemma_low_bits(status);
            lemma_with_slot(self.0, offset as int, status & 0b111);
        }
        self.0 = (self.0 & !(0b111u32 << (offset * 3))) | ((status & 0b111) << (offset * 3));
    }

    /// Counts one more failure in the slot at `offset`.
    fn plus_one(&mut self, offset: usize)
        requires
            offset < N <= MAX_SLOTS,
            old(self)@.slots[offset as int] < 7,
        ensures
            final(self)@ == old(self)@.with_slot(
                offset as int,
                (old(self)@.slots[offset as int] + 1) as u32,
            ),
    {
        let ghost v = (slot_of(self.0, offset as int) + 1) as u32;
        proof {
            lemma_increment_slot(self.0, offset as int);
            lemma_with_slot(self.0, offset as int, v);
        }
        self.0 += 1u32 << (3 * offset);
    }

    /// Marks the slot at `offset` as succeeded.
    fn set_ok(&mut self, offset: usize)
        requires
            offset < N <= MAX_SLOTS,
        ensures
            final(self)@ == old(self)@.with_slot(offset as int, STATUS_OK),
    {
        proof {
            lemma_fill_slot(self.0, offset as int);
            lemma_with_slot(self.0, offset as int, STATUS_OK);
        }
        self.0 |= STATUS_OK << (3 * offset);
    }

    /// Whether the subtask at `offset` should still be run.
    fn check_continue(&self, offset: usize) -> (run: bool)
        requires
            offset < N <= MAX_SLOTS,
        ensures
            run == (self@.slots[offset as int] < STATUS_MAX_RETRY),
    {
        self.get_status(offset) < STATUS_MAX_RETRY
    }

    /// Takes in the result of the subtask at `offset`: a success marks its
    /// slot as succeeded, a failure counts, and a slot that holds a final
    /// value is left alone.
    fn set_result(&mut self, result: &Result<(), anyhow::Error>, offset: usize)
        requires
            offset < N <= MAX_SLOTS,
        ensures
            final(self)@ == old(self)@.with_slot(
                offset as int,
                next_slot(old(self)@.slots[offset as int], *result is Ok),
            ),
    {
        if self.get_status(offset) < STATUS_MAX_RETRY {
            match result {
                Ok(_) => self.set_ok(offset),
                Err(_) => self.plus_one(offset),
            }
        }
        assert(self@ =~= old(self)@.with_slot(
            offset as int,
            next_slot(old(self)@.slots[offset as int], *result is Ok),
        ));
    }
}

impl<const N: usize> Default for Status<N> {
    /// The status of a job of which nothing has been tried yet: the zero
    /// word, every slot at 0 and not completed.
    fn default() -> (status: Self)
        ensures
            status.raw() == 0,
            N <= MAX_SLOTS ==> status@ == StatusView::fresh(N as nat),
    {
        proof {
            lemma_zero_word();
        }
        Status(0)
    }
}

impl<const N: usize> From<u32> for Status<N> {
    /// Takes a stored word as it is.
    fn from(status: u32) -> (ret: Self)
        ensures
            ret.raw() == status,
    {
        Status(status)
    }
}

impl<const N: usize> FromSpecImpl<u32> for Status<N> {
    open spec fn obeys_from_spec() -> bool {
        true
    }

    closed spec fn from_spec(v: u32) -> Self {
        Status(v)
    }
}

impl<const N: usize> From<Status<N>> for u32 {
    /// The word to store.
    fn from(status: Status<N>) -> (ret: u32)
        ensures
            ret == status.raw(),
    {
        status.0
    }
}

impl<const N: usize> FromSpecImpl<Status<N>> for u32 {
    open spec fn obeys_from_spec() -> bool {
        true
    }

    open spec fn from_spec(v: Status<N>) -> u32 {
        v.raw()
    }
}

} // verus!
