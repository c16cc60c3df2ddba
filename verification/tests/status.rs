use retry_status::layout::{MAX_SLOTS, STATUS_COMPLETED, STATUS_MAX_RETRY, STATUS_OK};
use retry_status::status::{PageStatus, Status, VideoStatus};

fn failed() -> anyhow::Result<()> {
    Err(anyhow::Error::msg(""))
}

#[test]
fn test_status_update() {
    let mut status = Status::<3>::default();
    assert_eq!(status.should_run(), [true, true, true]);
    for _ in 0..3 {
        status.update_status(&[Err(anyhow::Error::msg("")), Ok(()), Ok(())]);
        assert_eq!(status.should_run(), [true, false, false]);
    }
    status.update_status(&[Err(anyhow::Error::msg("")), Ok(()), Ok(())]);
    assert_eq!(status.should_run(), [false, false, false]);
}

#[test]
fn test_status_convert() {
    let testcases = [[0, 0, 1], [1, 2, 3], [3, 1, 2], [3, 0, 7]];
    for testcase in testcases.iter() {
        let status = Status::<3>::from_slots(testcase.clone());
        assert_eq!(status.to_slots(), *testcase);
    }
}

#[test]
fn test_status_convert_and_update() {
    let testcases = [([0, 0, 1], [1, 7, 7]), ([3, 4, 3], [4, 4, 7]), ([3, 1, 7], [4, 7, 7])];
    for (before, after) in testcases.iter() {
        let mut status = Status::<3>::from_slots(before.clone());
        status.update_status(&[Err(anyhow::Error::msg("")), Ok(()), Ok(())]);
        assert_eq!(status.to_slots(), *after);
    }
}

#[test]
fn constants_have_their_bit_patterns() {
    assert_eq!(STATUS_MAX_RETRY, 4);
    assert_eq!(STATUS_OK, 7);
    assert_eq!(STATUS_COMPLETED, 1u32 << 31);
    assert_eq!(MAX_SLOTS, 10);
}

#[test]
fn default_is_the_zero_word() {
    let status = Status::<5>::default();
    assert_eq!(u32::from(status), 0);
    assert!(!status.get_completed());
    assert_eq!(status.to_slots(), [0, 0, 0, 0, 0]);
    assert_eq!(status.should_run(), [true, true, true, true, true]);
}

#[test]
fn raw_word_round_trips() {
    for raw in [0u32, 1, 7, 8, 209, 0x7fff_ffff, 0x8000_0000, 0x8000_017c, 0xdead_beef, u32::MAX] {
        assert_eq!(u32::from(Status::<3>::from(raw)), raw);
        assert_eq!(u32::from(Status::<10>::from(raw)), raw);
        assert_eq!(u32::from(Status::<0>::from(raw)), raw);
    }
}

#[test]
fn status_round_trips_through_its_word() {
    let status = Status::<3>::from_slots([3, 0, 7]);
    let again = Status::<3>::from(u32::from(status));
    assert_eq!(again.to_slots(), status.to_slots());
    assert_eq!(again.get_completed(), status.get_completed());
    assert_eq!(u32::from(again), u32::from(status));
}

#[test]
fn into_gives_the_same_status_as_from() {
    let status: Status<3> = 209u32.into();
    assert_eq!(status.to_slots(), [1, 2, 3]);
    let raw: u32 = status.into();
    assert_eq!(raw, 209);
}

#[test]
fn slots_are_packed_three_bits_each_from_the_lowest() {
    assert_eq!(u32::from(Status::<3>::from_slots([1, 2, 3])), 1 | (2 << 3) | (3 << 6));
    assert_eq!(u32::from(Status::<3>::from_slots([1, 2, 3])), 209);
    assert_eq!(u32::from(Status::<3>::from_slots([0, 0, 1])), 64);
    assert_eq!(u32::from(Status::<1>::from_slots([3])), 3);
}

#[test]
fn slots_are_read_three_bits_each_from_the_lowest() {
    assert_eq!(Status::<3>::from(209).to_slots(), [1, 2, 3]);
    assert_eq!(Status::<2>::from(209).to_slots(), [1, 2]);
    assert_eq!(Status::<4>::from(209).to_slots(), [1, 2, 3, 0]);
    assert_eq!(Status::<3>::from(0o765).to_slots(), [5, 6, 7]);
    assert_eq!(Status::<3>::from(u32::MAX).to_slots(), [7, 7, 7]);
}

#[test]
fn slot_values_round_trip_when_they_fit_three_bits() {
    for a in 0u32..8 {
        for b in 0u32..8 {
            for c in 0u32..8 {
                assert_eq!(Status::<3>::from_slots([a, b, c]).to_slots(), [a, b, c]);
            }
        }
    }
}

#[test]
fn packing_sets_the_flag_when_every_slot_is_final() {
    let status = Status::<3>::from_slots([4, 7, 5]);
    assert!(status.get_completed());
    assert_eq!(u32::from(status), 0x8000_017c);
    assert_eq!(status.to_slots(), [4, 7, 5]);
    assert_eq!(status.should_run(), [false, false, false]);
}

#[test]
fn packing_leaves_the_flag_clear_while_a_slot_is_pending() {
    let status = Status::<3>::from_slots([3, 0, 7]);
    assert!(!status.get_completed());
    assert_eq!(status.should_run(), [true, true, false]);
    assert_eq!(u32::from(status), 3 | (7 << 6));
}

#[test]
fn packing_keeps_the_low_three_bits_of_each_value() {
    assert_eq!(Status::<3>::from_slots([8, 9, 15]).to_slots(), [0, 1, 7]);
    assert_eq!(u32::from(Status::<3>::from_slots([8, 9, 15])), 456);
    assert_eq!(Status::<2>::from_slots([u32::MAX, 0x1234_5678]).to_slots(), [7, 0]);
}

#[test]
fn packing_does_not_spill_above_the_slots() {
    assert_eq!(u32::from(Status::<3>::from_slots([0, 0, 8])), 0);
    assert_eq!(u32::from(Status::<3>::from_slots([0, 0, 0x0200_0000])), 0);
    assert!(!Status::<3>::from_slots([0, 0, 0x0200_0000]).get_completed());
    assert_eq!(u32::from(Status::<1>::from_slots([0xffff_fff8])), 0);
    assert_eq!(u32::from(Status::<1>::from_slots([0xffff_fffc])), 0x8000_0004);
}

#[test]
fn completion_flag_is_the_highest_bit() {
    assert!(!Status::<3>::from(0).get_completed());
    assert!(!Status::<3>::from(0x7fff_ffff).get_completed());
    assert!(Status::<3>::from(0x8000_0000).get_completed());
    assert!(Status::<3>::from(u32::MAX).get_completed());
    assert!(!Status::<3>::from(0x4000_0000).get_completed());
}

#[test]
fn should_run_is_slot_below_max_retry() {
    for value in 0u32..8 {
        let status = Status::<2>::from_slots([value, 7 - value]);
        assert_eq!(status.should_run(), [value < 4, 7 - value < 4]);
    }
    assert_eq!(
        Status::<8>::from_slots([0, 1, 2, 3, 4, 5, 6, 7]).should_run(),
        [true, true, true, true, false, false, false, false]
    );
}

#[test]
fn four_failures_give_up_and_complete() {
    let mut status = Status::<3>::default();
    for round in 1u32..=3 {
        status.update_status(&[failed(), Ok(()), Ok(())]);
        assert_eq!(status.should_run(), [true, false, false]);
        assert_eq!(status.to_slots(), [round, 7, 7]);
        assert!(!status.get_completed());
    }
    status.update_status(&[failed(), Ok(()), Ok(())]);
    assert_eq!(status.should_run(), [false, false, false]);
    assert!(status.get_completed());
    assert_eq!(status.to_slots(), [4, 7, 7]);
    assert_eq!(u32::from(status), 0x8000_0000 | 4 | (7 << 3) | (7 << 6));
}

#[test]
fn update_of_a_fresh_count_leaves_the_job_open() {
    let mut status = Status::<3>::from_slots([0, 0, 1]);
    status.update_status(&[failed(), Ok(()), Ok(())]);
    assert_eq!(status.to_slots(), [1, 7, 7]);
    assert!(!status.get_completed());
}

#[test]
fn update_that_exhausts_the_last_pending_slot_completes() {
    let mut status = Status::<3>::from_slots([3, 1, 7]);
    assert!(!status.get_completed());
    status.update_status(&[failed(), Ok(()), Ok(())]);
    assert_eq!(status.to_slots(), [4, 7, 7]);
    assert!(status.get_completed());
}

#[test]
fn failure_adds_one_at_the_slot() {
    let mut status = Status::<3>::from(209);
    status.update_status(&[Ok(()), failed(), Ok(())]);
    assert_eq!(u32::from(status), 7 | (3 << 3) | (7 << 6));
    let mut status = Status::<3>::from(0);
    status.update_status(&[failed(), failed(), failed()]);
    assert_eq!(u32::from(status), 1 | (1 << 3) | (1 << 6));
    assert_eq!(u32::from(status), 0o111);
}

#[test]
fn failures_never_count_past_max_retry() {
    let mut status = Status::<1>::default();
    let mut seen = Vec::new();
    for _ in 0..10 {
        status.update_status(&[failed()]);
        seen.push(status.to_slots()[0]);
    }
    assert_eq!(seen, vec![1, 2, 3, 4, 4, 4, 4, 4, 4, 4]);
    assert_eq!(u32::from(status), 0x8000_0004);
}

#[test]
fn success_is_never_undone() {
    let mut status = Status::<2>::default();
    status.update_status(&[Ok(()), failed()]);
    assert_eq!(status.to_slots(), [7, 1]);
    for expected in [2u32, 3, 4, 4, 4] {
        status.update_status(&[failed(), failed()]);
        assert_eq!(status.to_slots(), [7, expected]);
    }
    status.update_status(&[Ok(()), Ok(())]);
    assert_eq!(status.to_slots(), [7, 4]);
}

#[test]
fn given_up_slot_ignores_a_late_success() {
    let mut status = Status::<2>::from_slots([4, 0]);
    status.update_status(&[Ok(()), failed()]);
    assert_eq!(status.to_slots(), [4, 1]);
    assert!(!status.get_completed());
}

#[test]
fn flag_is_set_by_the_update_that_leaves_nothing_to_run() {
    let mut status = Status::<2>::default();
    status.update_status(&[Ok(()), failed()]);
    assert!(!status.get_completed());
    status.update_status(&[Ok(()), failed()]);
    assert!(!status.get_completed());
    status.update_status(&[Ok(()), Ok(())]);
    assert_eq!(status.should_run(), [false, false]);
    assert!(status.get_completed());
    for _ in 0..3 {
        status.update_status(&[failed(), failed()]);
        assert!(status.get_completed());
        assert_eq!(status.to_slots(), [7, 7]);
    }
    assert_eq!(u32::from(status), 0x8000_003f);
}

#[test]
fn update_sets_the_flag_of_a_word_whose_slots_are_already_final() {
    let mut status = Status::<2>::from(0o74);
    assert!(!status.get_completed());
    status.update_status(&[failed(), Ok(())]);
    assert!(status.get_completed());
    assert_eq!(u32::from(status), 0x8000_0000 | 0o74);
}

#[test]
fn update_never_clears_the_flag() {
    let mut status = Status::<1>::from(0x8000_0000);
    assert!(status.get_completed());
    assert_eq!(status.should_run(), [true]);
    status.update_status(&[failed()]);
    assert!(status.get_completed());
    assert_eq!(u32::from(status), 0x8000_0001);
}

#[test]
fn unreachable_slot_values_count_as_final() {
    let mut status = Status::<2>::from(5 | (6 << 3));
    assert_eq!(status.to_slots(), [5, 6]);
    assert_eq!(status.should_run(), [false, false]);
    status.update_status(&[failed(), Ok(())]);
    assert_eq!(status.to_slots(), [5, 6]);
    assert!(status.get_completed());
    assert_eq!(u32::from(status), 0x8000_0000 | 5 | (6 << 3));
}

#[test]
fn update_carries_the_spare_bits_along() {
    let mut status = Status::<2>::from(0x40);
    status.update_status(&[failed(), Ok(())]);
    assert_eq!(u32::from(status), 0x40 | 1 | (7 << 3));
    assert_eq!(status.to_slots(), [1, 7]);
    let mut status = Status::<1>::from(0x7fff_fff8);
    status.update_status(&[Ok(())]);
    assert_eq!(u32::from(status), u32::MAX);
}

#[test]
fn ten_slots_fill_the_word_below_the_flag() {
    let status = Status::<10>::from_slots([7; 10]);
    assert_eq!(u32::from(status), 0xbfff_ffff);
    assert_eq!(status.to_slots(), [7; 10]);
    let mut status = Status::<10>::from_slots([0, 1, 2, 3, 4, 5, 6, 7, 0, 3]);
    assert_eq!(status.to_slots(), [0, 1, 2, 3, 4, 5, 6, 7, 0, 3]);
    assert_eq!(u32::from(status) >> 27, 3);
    status.update_status(&[
        failed(),
        failed(),
        failed(),
        failed(),
        failed(),
        failed(),
        failed(),
        failed(),
        Ok(()),
        failed(),
    ]);
    assert_eq!(status.to_slots(), [1, 2, 3, 4, 4, 5, 6, 7, 7, 4]);
    assert!(!status.get_completed());
    assert_eq!(status.should_run(), [true, true, true, false, false, false, false, false, false, false]);
}

#[test]
fn no_slots_complete_at_once() {
    let status = Status::<0>::from_slots([]);
    assert!(status.get_completed());
    assert_eq!(u32::from(status), 0x8000_0000);
    let mut status = Status::<0>::default();
    assert!(!status.get_completed());
    status.update_status(&[]);
    assert!(status.get_completed());
    assert_eq!(status.should_run(), [false; 0]);
}

#[test]
fn error_content_does_not_matter() {
    let mut a = Status::<2>::default();
    let mut b = Status::<2>::default();
    a.update_status(&[Err(anyhow::Error::msg("timeout")), Ok(())]);
    b.update_status(&[Err(anyhow::Error::msg("not found").context("while fetching")), Ok(())]);
    assert_eq!(u32::from(a), u32::from(b));
    assert_eq!(u32::from(a), 1 | (7 << 3));
}

#[test]
fn copies_are_independent() {
    let mut status = Status::<2>::default();
    let copy = status;
    status.update_status(&[Ok(()), Ok(())]);
    assert_eq!(u32::from(copy), 0);
    assert_eq!(u32::from(copy.clone()), 0);
    assert_eq!(u32::from(status), 0x8000_003f);
}

#[test]
fn video_and_page_status_have_five_slots() {
    let mut video = VideoStatus::default();
    video.update_status(&[Ok(()), Ok(()), failed(), Ok(()), Ok(())]);
    assert_eq!(video.should_run(), [false, false, true, false, false]);
    assert_eq!(video.to_slots(), [7, 7, 1, 7, 7]);
    let page = PageStatus::from_slots([7, 7, 7, 7, 4]);
    assert!(page.get_completed());
    assert_eq!(u32::from(page), 0x8000_0000 | 0o47777);
}
