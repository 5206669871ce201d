use frustum::{LongerSegment, PacingTable, PathError, PathSample};

fn table(origin: &[u64], target: &[u64], frames_per_unit: u8, ticks_per_unit: u64) -> PacingTable {
    PacingTable::new(&origin.to_vec(), &target.to_vec(), frames_per_unit, ticks_per_unit).unwrap()
}

fn fault(origin: &[u64], target: &[u64], frames_per_unit: u8, ticks_per_unit: u64) -> PathError {
    match PacingTable::new(&origin.to_vec(), &target.to_vec(), frames_per_unit, ticks_per_unit) {
        Ok(_) => panic!("the path was accepted"),
        Err(error) => error,
    }
}

fn drain(table: &PacingTable) -> Vec<PathSample> {
    let mut iter = table.iter();
    let mut samples = Vec::new();
    while let Some(sample) = iter.next() {
        samples.push(sample);
    }
    samples
}

#[test]
fn longer_segment_prefers_the_origin_on_a_tie() {
    assert_eq!(LongerSegment::longer(7, 7), LongerSegment::Origin(7));
    assert_eq!(LongerSegment::longer(0, 0), LongerSegment::Origin(0));
}

#[test]
fn longer_segment_picks_the_greater_length() {
    assert_eq!(LongerSegment::longer(9, 4), LongerSegment::Origin(9));
    assert_eq!(LongerSegment::longer(4, 9), LongerSegment::Target(9));
    assert_eq!(LongerSegment::longer(u64::MAX, 0), LongerSegment::Origin(u64::MAX));
    assert_eq!(LongerSegment::longer(0, u64::MAX), LongerSegment::Target(u64::MAX));
}

#[test]
fn longer_segment_value_ignores_the_tag() {
    assert_eq!(LongerSegment::Origin(12).as_value(), 12);
    assert_eq!(LongerSegment::Target(12).as_value(), 12);
}

#[test]
fn path_without_keyframes_is_rejected() {
    assert_eq!(fault(&[], &[], 24, 1000), PathError::TooFewKeyframes);
}

#[test]
fn path_with_unequal_splines_is_rejected() {
    assert_eq!(fault(&[1, 2], &[1], 24, 1000), PathError::SegmentCountMismatch);
    assert_eq!(fault(&[], &[1], 24, 1000), PathError::SegmentCountMismatch);
}

#[test]
fn path_without_frame_rate_is_rejected() {
    assert_eq!(fault(&[5], &[5], 0, 1000), PathError::ZeroFrameRate);
}

#[test]
fn path_without_tick_rate_is_rejected() {
    assert_eq!(fault(&[5], &[5], 24, 0), PathError::ZeroTickRate);
}

#[test]
fn path_longer_than_can_be_counted_is_rejected() {
    assert_eq!(fault(&[u64::MAX], &[0], 2, 1000), PathError::PathTooLong);
    assert_eq!(fault(&[u64::MAX, 1], &[0, 0], 1, 1000), PathError::PathTooLong);
    assert_eq!(fault(&[1 << 63, 0], &[0, 1 << 63], 1, 1000), PathError::PathTooLong);
}

#[test]
fn path_faults_are_reported_in_order() {
    assert_eq!(fault(&[], &[1], 0, 0), PathError::SegmentCountMismatch);
    assert_eq!(fault(&[], &[], 0, 0), PathError::TooFewKeyframes);
    assert_eq!(fault(&[1], &[1], 0, 0), PathError::ZeroFrameRate);
    assert_eq!(fault(&[u64::MAX], &[1], 2, 0), PathError::ZeroTickRate);
}

#[test]
fn path_at_the_limit_of_counting_is_accepted() {
    let table = table(&[u64::MAX - 1, 0], &[0, 1], 1, 1000);
    assert_eq!(table.path_length(), u64::MAX);
}

#[test]
fn table_keeps_the_longer_length_of_each_segment() {
    let table = table(&[3, 8, 5], &[4, 8, 1], 24, 1000);
    assert_eq!(table.segment_count(), 3);
    assert_eq!(table.key_frames(), 4);
    assert_eq!(table.segment(0), Some(LongerSegment::Target(4)));
    assert_eq!(table.segment(1), Some(LongerSegment::Origin(8)));
    assert_eq!(table.segment(2), Some(LongerSegment::Origin(5)));
    assert_eq!(table.segment(3), None);
    assert_eq!(table.frames_per_unit(), 24);
    assert_eq!(table.ticks_per_unit(), 1000);
}

#[test]
fn path_length_is_the_sum_of_the_pacing_lengths() {
    let table = table(&[3, 8, 5], &[4, 8, 1], 24, 1000);
    assert_eq!(table.path_length(), 4 + 8 + 5);
}

#[test]
fn frames_lie_one_step_apart_on_a_single_segment() {
    let table = table(&[10], &[4], 2, 5);
    assert_eq!(
        drain(&table),
        vec![
            PathSample { segment: 0, offset: 5, span: 20, control_points: (0, 0, 1, 1) },
            PathSample { segment: 0, offset: 10, span: 20, control_points: (0, 0, 1, 1) },
            PathSample { segment: 0, offset: 15, span: 20, control_points: (0, 0, 1, 1) },
        ]
    );
}

#[test]
fn step_carries_over_joints_and_empty_segments() {
    let table = table(&[3, 0, 5], &[1, 0, 2], 1, 2);
    assert_eq!(
        drain(&table),
        vec![
            PathSample { segment: 0, offset: 2, span: 3, control_points: (0, 0, 1, 2) },
            PathSample { segment: 2, offset: 1, span: 5, control_points: (1, 2, 3, 3) },
            PathSample { segment: 2, offset: 3, span: 5, control_points: (1, 2, 3, 3) },
        ]
    );
}

#[test]
fn step_onto_a_joint_starts_the_next_segment() {
    let table = table(&[4, 4, 4], &[0, 0, 0], 1, 4);
    assert_eq!(
        drain(&table),
        vec![
            PathSample { segment: 1, offset: 0, span: 4, control_points: (0, 1, 2, 3) },
            PathSample { segment: 2, offset: 0, span: 4, control_points: (1, 2, 3, 3) },
        ]
    );
}

#[test]
fn step_onto_a_joint_skips_empty_segments_after_it() {
    let table = table(&[4, 0, 0, 4], &[0, 0, 0, 0], 1, 4);
    assert_eq!(
        drain(&table),
        vec![PathSample { segment: 3, offset: 0, span: 4, control_points: (2, 3, 4, 4) }]
    );
}

#[test]
fn step_longer_than_a_segment_passes_over_it() {
    let table = table(&[1, 1, 1, 1, 1, 1, 1], &[0, 0, 0, 0, 0, 0, 0], 1, 3);
    assert_eq!(
        drain(&table),
        vec![
            PathSample { segment: 3, offset: 0, span: 1, control_points: (2, 3, 4, 5) },
            PathSample { segment: 6, offset: 0, span: 1, control_points: (5, 6, 7, 7) },
        ]
    );
}

#[test]
fn frame_rate_divides_the_unit() {
    let table = table(&[1], &[1], 4, 1);
    assert_eq!(
        drain(&table),
        vec![
            PathSample { segment: 0, offset: 1, span: 4, control_points: (0, 0, 1, 1) },
            PathSample { segment: 0, offset: 2, span: 4, control_points: (0, 0, 1, 1) },
            PathSample { segment: 0, offset: 3, span: 4, control_points: (0, 0, 1, 1) },
        ]
    );
}

#[test]
fn path_of_no_length_yields_no_frame() {
    let table = table(&[0, 0, 0], &[0, 0, 0], 24, 1000);
    let mut iter = table.iter();
    assert_eq!(iter.remaining_frames(), 0);
    assert_eq!(iter.size_hint(), (0, Some(0)));
    assert_eq!(iter.next(), None);
    assert_eq!(iter.next(), None);
}

#[test]
fn path_shorter_than_a_step_yields_no_frame() {
    let table = table(&[999], &[0], 1, 1000);
    assert_eq!(drain(&table), Vec::<PathSample>::new());
}

#[test]
fn path_of_exactly_one_step_yields_no_frame() {
    let table = table(&[1000], &[0], 1, 1000);
    assert_eq!(drain(&table), Vec::<PathSample>::new());
}

#[test]
fn path_just_longer_than_a_step_yields_one_frame() {
    let table = table(&[1001], &[0], 1, 1000);
    assert_eq!(
        drain(&table),
        vec![PathSample { segment: 0, offset: 1000, span: 1001, control_points: (0, 0, 1, 1) }]
    );
}

#[test]
fn traversal_stays_ended() {
    let table = table(&[10], &[4], 2, 5);
    let mut iter = table.iter();
    while iter.next().is_some() {}
    assert_eq!(iter.next(), None);
    assert_eq!(iter.next(), None);
    assert_eq!(iter.remaining_frames(), 0);
    assert_eq!(iter.size_hint(), (0, Some(0)));
}

#[test]
fn remaining_frames_count_down_by_one() {
    let table = table(&[7, 0, 12, 3], &[2, 9, 1, 3], 3, 4);
    let mut iter = table.iter();
    let total = (7 + 9 + 12 + 3) * 3;
    let mut expected = (total - 1) / 4;
    assert_eq!(expected, 23);
    loop {
        assert_eq!(iter.remaining_frames(), expected);
        assert_eq!(iter.size_hint(), (expected as usize, Some(expected as usize + 1)));
        match iter.next() {
            Some(_) => expected -= 1,
            None => break,
        }
    }
    assert_eq!(expected, 0);
    assert_eq!(iter.remaining_frames(), 0);
    assert_eq!(iter.size_hint(), (0, Some(0)));
}

#[test]
fn size_hint_is_floor_and_ceiling_of_length_times_rate() {
    let table = table(&[3_670_016], &[0], 1, 1 << 20);
    let mut iter = table.iter();
    assert_eq!(iter.size_hint(), (3, Some(4)));
    assert_eq!(iter.remaining_frames(), 3);
    assert!(iter.next().is_some());
    assert_eq!(iter.size_hint(), (2, Some(3)));
    assert!(iter.next().is_some());
    assert_eq!(iter.size_hint(), (1, Some(2)));
    assert!(iter.next().is_some());
    assert_eq!(iter.size_hint(), (0, Some(1)));
    assert_eq!(iter.next(), None);
    assert_eq!(iter.size_hint(), (0, Some(0)));
}

#[test]
fn size_hint_of_a_whole_number_of_frames_leaves_out_the_end() {
    let table = table(&[4_000, 6_000], &[1_000, 2_000], 24, 1000);
    let mut iter = table.iter();
    assert_eq!(iter.size_hint(), (239, Some(240)));
    assert_eq!(iter.remaining_frames(), 239);
    assert!(iter.next().is_some());
    assert_eq!(iter.size_hint(), (238, Some(239)));
    let mut frames = 1;
    while iter.next().is_some() {
        frames += 1;
    }
    assert_eq!(frames, 239);
    assert_eq!(iter.size_hint(), (0, Some(0)));
}

#[test]
fn size_hint_of_a_path_shorter_than_a_step() {
    let table = table(&[999], &[0], 1, 1000);
    let mut iter = table.iter();
    assert_eq!(iter.size_hint(), (0, Some(1)));
    assert_eq!(iter.next(), None);
    assert_eq!(iter.size_hint(), (0, Some(0)));
}

#[test]
fn size_hint_encloses_the_frames_that_come() {
    let table = table(&[5, 0, 11, 2, 7], &[0, 9, 0, 0, 0], 3, 4);
    let frames = drain(&table).len();
    let (lower, upper) = table.iter().size_hint();
    assert_eq!(lower, frames);
    assert_eq!(upper, Some(frames + 1));
}

#[test]
fn frame_count_is_within_one_of_length_times_rate() {
    let whole = table(&[4_000, 6_000], &[1_000, 2_000], 24, 1000);
    assert_eq!(whole.path_length(), 10_000);
    assert_eq!(drain(&whole).len(), 239);

    let longer = table(&[4_000, 6_001], &[1_000, 2_000], 24, 1000);
    assert_eq!(drain(&longer).len(), 240);

    let shorter = table(&[4_000, 5_999], &[1_000, 2_000], 24, 1000);
    assert_eq!(drain(&shorter).len(), 239);
}

#[test]
fn frames_are_evenly_spaced_along_the_path() {
    let lengths = [5u64, 0, 11, 2, 7];
    let table = table(&lengths, &[0, 0, 0, 0, 0], 3, 4);
    let mut starts = Vec::new();
    let mut before = 0u64;
    for length in lengths {
        starts.push(before);
        before += length * 3;
    }
    let samples = drain(&table);
    assert_eq!(samples.len() as u64, (before - 1) / 4);
    for (number, sample) in samples.iter().enumerate() {
        assert!(sample.offset < sample.span);
        assert_eq!(sample.span, lengths[sample.segment] * 3);
        assert_eq!(starts[sample.segment] + sample.offset, (number as u64 + 1) * 4);
    }
}

#[test]
fn control_points_follow_the_segment() {
    let table = table(&[2, 2, 2, 2], &[0, 0, 0, 0], 1, 1);
    let windows: Vec<(usize, (usize, usize, usize, usize))> =
        drain(&table).iter().map(|sample| (sample.segment, sample.control_points)).collect();
    assert_eq!(
        windows,
        vec![
            (0, (0, 0, 1, 2)),
            (1, (0, 1, 2, 3)),
            (1, (0, 1, 2, 3)),
            (2, (1, 2, 3, 4)),
            (2, (1, 2, 3, 4)),
            (3, (2, 3, 4, 4)),
            (3, (2, 3, 4, 4)),
        ]
    );
}

#[test]
fn traversals_of_one_table_are_independent() {
    let table = table(&[10], &[4], 2, 5);
    let mut first = table.iter();
    assert!(first.next().is_some());
    let mut second = table.iter();
    assert_eq!(second.remaining_frames(), 3);
    assert_eq!(first.remaining_frames(), 2);
    assert_eq!(
        second.next(),
        Some(PathSample { segment: 0, offset: 5, span: 20, control_points: (0, 0, 1, 1) })
    );
}
