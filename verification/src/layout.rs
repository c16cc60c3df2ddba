//! The bit layout of a packed status word, and the facts about it that the
//! status type is proved from.
//!
//! A word holds up to [`MAX_SLOTS`] slots of three bits each, counted from the
//! lowest bit, and the completion flag in its highest bit. With fewer than
//! [`MAX_SLOTS`] slots in use, the bits between the last slot and the flag are
//! spare: the operations on slots carry them along unchanged.

use vstd::prelude::*;

verus! {

/// Largest number of slots that fit below the completion flag of a 32-bit word.
pub const MAX_SLOTS: usize = 10;

/// Slot value at which a subtask is given up: the number of failures allowed.
pub const STATUS_MAX_RETRY: u32 = 0b100;

/// Slot value of a subtask that succeeded.
pub const STATUS_OK: u32 = 0b111;

/// The completion flag: the highest bit of the word.
pub const STATUS_COMPLETED: u32 = 0x8000_0000;

/// The value of slot `i` in `raw`: bits `3 * i` to `3 * i + 2`.
pub open spec fn slot_of(raw: u32, i: int) -> u32 {
    (raw >> (3 * i)) & 0b111
}

/// Whether the completion flag is set in `raw`.
pub open spec fn completed_of(raw: u32) -> bool {
    raw >= STATUS_COMPLETED
}

/// The bits of `raw` above its first `n` slots and below the completion flag,
/// moved down to bit 0.
pub open spec fn spare_of(raw: u32, n: int) -> u32 {
    (raw & 0x7fff_ffff) >> (3 * n)
}

/// `raw` with the three bits of slot `i` replaced by `v`.
pub open spec fn with_slot(raw: u32, i: int, v: u32) -> u32 {
    (raw & !(0b111u32 << (3 * i))) | (v << (3 * i))
}

// The facts below are about single words and shift amounts, in the form that
// the bit-vector solver takes. A shift amount `s` stands for slot `s / 3`.

/// A written slot reads back, and the flag is untouched.
proof fn bits_written_slot(raw: u32, s: u32, v: u32)
    by (bit_vector)
    requires
        s <= 27,
        v <= 7,
    ensures
        (((raw & !(0b111u32 << s)) | (v << s)) >> s) & 0b111 == v,
        ((raw & !(0b111u32 << s)) | (v << s)) >= 0x8000_0000u32 <==> raw >= 0x8000_0000u32,
{
}

/// Writing the slot at `s` leaves the slot at `t` alone.
proof fn bits_other_slot(raw: u32, s: u32, t: u32, v: u32)
    by (bit_vector)
    requires
        s <= 27,
        t <= 27,
        s % 3 == 0,
        t % 3 == 0,
        s != t,
        v <= 7,
    ensures
        (((raw & !(0b111u32 << s)) | (v << s)) >> t) & 0b111 == (raw >> t) & 0b111,
{
}

/// Writing the slot at `s` leaves the bits from `m` up to the flag alone.
proof fn bits_spare_above(raw: u32, s: u32, m: u32, v: u32)
    by (bit_vector)
    requires
        s <= 27,
        s + 3 <= m,
        m <= 30,
        v <= 7,
    ensures
        (((raw & !(0b111u32 << s)) | (v << s)) & 0x7fff_ffff) >> m == (raw & 0x7fff_ffff) >> m,
{
}

/// Setting the three bits at `s` is writing 7 there.
proof fn bits_fill_slot(raw: u32, s: u32)
    by (bit_vector)
    requires
        s <= 27,
    ensures
        raw | (0b111u32 << s) == (raw & !(0b111u32 << s)) | (0b111u32 << s),
{
}

/// Adding one at `s` to a slot below 7 is writing its successor `v` there.
proof fn bits_increment_slot(raw: u32, s: u32, v: u32)
    by (bit_vector)
    requires
        s <= 27,
        (raw >> s) & 0b111 < 7,
        v == ((raw >> s) & 0b111) + 1,
    ensures
        raw + (1u32 << s) == (raw & !(0b111u32 << s)) | (v << s),
{
}

/// Setting or clearing the highest bit changes nothing below it, and the
/// highest bit is set exactly in the words from `0x8000_0000` up.
proof fn bits_flag(raw: u32, t: u32)
    by (bit_vector)
    requires
        t <= 27,
    ensures
        (raw | 0x8000_0000u32) >= 0x8000_0000u32,
        ((raw | 0x8000_0000u32) >> t) & 0b111 == (raw >> t) & 0b111,
        (raw | 0x8000_0000u32) & 0x7fff_ffff == raw & 0x7fff_ffff,
        (raw & !0x8000_0000u32) < 0x8000_0000u32,
        ((raw & !0x8000_0000u32) >> t) & 0b111 == (raw >> t) & 0b111,
        (raw & !0x8000_0000u32) & 0x7fff_ffff == raw & 0x7fff_ffff,
        raw >> 31 == 1 <==> raw >= 0x8000_0000u32,
{
}

/// A slot holds a value from 0 to 7.
proof fn bits_slot_range(raw: u32, s: u32)
    by (bit_vector)
    ensures
        (raw >> s) & 0b111 <= 7,
{
}

/// The zero word holds nothing at any place.
proof fn bits_zero(s: u32)
    by (bit_vector)
    requires
        s <= 30,
    ensures
        (0u32 >> s) & 0b111 == 0,
        (0u32 & 0x7fff_ffff) >> s == 0,
{
}

/// The low three bits of a value are its remainder modulo 8.
proof fn bits_low(v: u32)
    by (bit_vector)
    ensures
        v & 0b111 == v % 8,
{
}

/// The bits from `s` up to the flag are the slot at `s` below the bits from
/// `m = s + 3` up to the flag.
proof fn bits_digit(raw: u32, s: u32, m: u32)
    by (bit_vector)
    requires
        s <= 27,
        m == s + 3,
    ensures
        (raw & 0x7fff_ffff) >> s == (((raw & 0x7fff_ffff) >> m) << 3) | ((raw >> s) & 0b111),
{
}

/// A word is its bits below the flag together with the flag.
proof fn bits_whole(a: u32, b: u32)
    by (bit_vector)
    requires
        (a & 0x7fff_ffff) >> 0 == (b & 0x7fff_ffff) >> 0,
        a >= 0x8000_0000u32 <==> b >= 0x8000_0000u32,
    ensures
        a == b,
{
}

/// Replacing slot `i` by `v` gives a word that holds `v` in slot `i` and is
/// otherwise as before: in the other slots, in the spare bits above slot `i`,
/// and in the completion flag.
pub proof fn lemma_with_slot(raw: u32, i: int, v: u32)
    requires
        0 <= i < MAX_SLOTS,
        v <= 7,
    ensures
        slot_of(with_slot(raw, i, v), i) == v,
        forall|j: int|
            0 <= j < MAX_SLOTS && j != i ==> #[trigger] slot_of(with_slot(raw, i, v), j)
                == slot_of(raw, j),
        forall|n: int|
            i < n <= MAX_SLOTS ==> #[trigger] spare_of(with_slot(raw, i, v), n) == spare_of(raw, n),
        completed_of(with_slot(raw, i, v)) == completed_of(raw),
{
    let s: u32 = (3 * i) as u32;
    bits_written_slot(raw, s, v);
    assert forall|j: int| 0 <= j < MAX_SLOTS && j != i implies #[trigger] slot_of(
        with_slot(raw, i, v),
        j,
    ) == slot_of(raw, j) by {
        bits_other_slot(raw, s, (3 * j) as u32, v);
    }
    assert forall|n: int| i < n <= MAX_SLOTS implies #[trigger] spare_of(with_slot(raw, i, v), n)
        == spare_of(raw, n) by {
        bits_spare_above(raw, s, (3 * n) as u32, v);
    }
}

/// Setting all three bits of slot `i` replaces the slot by [`STATUS_OK`].
pub proof fn lemma_fill_slot(raw: u32, i: int)
    requires
        0 <= i < MAX_SLOTS,
    ensures
        raw | (STATUS_OK << (3 * i)) == with_slot(raw, i, STATUS_OK),
{
    bits_fill_slot(raw, (3 * i) as u32);
}

/// Adding one at the lowest bit of slot `i` replaces a slot below 7 by its
/// successor, and the sum fits the word.
pub proof fn lemma_increment_slot(raw: u32, i: int)
    requires
        0 <= i < MAX_SLOTS,
        slot_of(raw, i) < 7,
    ensures
        raw + (1u32 << (3 * i)) == with_slot(raw, i, (slot_of(raw, i) + 1) as u32),
{
    bits_increment_slot(raw, (3 * i) as u32, (slot_of(raw, i) + 1) as u32);
}

/// Setting or clearing the completion flag leaves every slot and the spare
/// bits as they were.
pub proof fn lemma_flag(raw: u32)
    ensures
        completed_of(raw | STATUS_COMPLETED),
        !completed_of(raw & !STATUS_COMPLETED),
        completed_of(raw) <==> raw >> 31 == 1,
        forall|i: int|
            0 <= i < MAX_SLOTS ==> #[trigger] slot_of(raw | STATUS_COMPLETED, i) == slot_of(raw, i),
        forall|i: int|
            0 <= i < MAX_SLOTS ==> #[trigger] slot_of(raw & !STATUS_COMPLETED, i) == slot_of(
                raw,
                i,
            ),
        forall|n: int| #[trigger] spare_of(raw | STATUS_COMPLETED, n) == spare_of(raw, n),
        forall|n: int| #[trigger] spare_of(raw & !STATUS_COMPLETED, n) == spare_of(raw, n),
{
    bits_flag(raw, 0);
    assert forall|i: int| 0 <= i < MAX_SLOTS implies #[trigger] slot_of(raw | STATUS_COMPLETED, i)
        == slot_of(raw, i) by {
        bits_flag(raw, (3 * i) as u32);
    }
    assert forall|i: int| 0 <= i < MAX_SLOTS implies #[trigger] slot_of(
        raw & !STATUS_COMPLETED,
        i,
    ) == slot_of(raw, i) by {
        bits_flag(raw, (3 * i) as u32);
    }
}

/// Every slot of a word holds a value from 0 to 7.
pub proof fn lemma_slot_range(raw: u32, i: int)
    requires
        0 <= i < MAX_SLOTS,
    ensures
        slot_of(raw, i) <= 7,
{
    bits_slot_range(raw, (3 * i) as u32);
}

/// The zero word: every slot at 0, no spare bit set, not completed.
pub proof fn lemma_zero_word()
    ensures
        !completed_of(0),
        forall|i: int| 0 <= i < MAX_SLOTS ==> #[trigger] slot_of(0, i) == 0,
        forall|n: int| 0 <= n <= MAX_SLOTS ==> #[trigger] spare_of(0, n) == 0,
{
    assert forall|i: int| 0 <= i < MAX_SLOTS implies #[trigger] slot_of(0, i) == 0 by {
        bits_zero((3 * i) as u32);
    }
    assert forall|n: int| 0 <= n <= MAX_SLOTS implies #[trigger] spare_of(0, n) == 0 by {
        bits_zero((3 * n) as u32);
    }
}

/// Keeping the low three bits of a value is taking it modulo 8.
pub proof fn lemma_low_bits(v: u32)
    ensures
        v & 0b111 == v % 8,
{
    bits_low(v);
}

/// A word is determined by its first `n` slots, the spare bits above them and
/// its completion flag.
pub proof fn lemma_word_determined(a: u32, b: u32, n: int)
    requires
        0 <= n <= MAX_SLOTS,
        forall|i: int| 0 <= i < n ==> slot_of(a, i) == slot_of(b, i),
        spare_of(a, n) == spare_of(b, n),
        completed_of(a) == completed_of(b),
    ensures
        a == b,
    decreases n,
{
    if n == 0 {
        bits_whole(a, b);
    } else {
        let s: u32 = (3 * (n - 1)) as u32;
        let m: u32 = (3 * n) as u32;
        bits_digit(a, s, m);
        bits_digit(b, s, m);
        assert(slot_of(a, n - 1) == slot_of(b, n - 1));
        lemma_word_determined(a, b, n - 1);
    }
}

} // verus!
