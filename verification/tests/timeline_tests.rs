use dash_to_hls::manifest::TimelineEntry;
use dash_to_hls::timeline::{compute_segment_times, count_template_segments, time_of_index};

fn entry(t: Option<i64>, d: i64, r: Option<i64>) -> TimelineEntry {
    TimelineEntry { t, d, r }
}

#[test]
fn repeated_entry_expands_to_four_times() {
    let times = compute_segment_times(&[entry(Some(5000), 1000, Some(3))]);
    assert_eq!(times, vec![5000, 6000, 7000, 8000]);
}

#[test]
fn entry_without_repeat_gives_one_time() {
    assert_eq!(compute_segment_times(&[entry(Some(42), 10, None)]), vec![42]);
    assert_eq!(compute_segment_times(&[entry(Some(42), 10, Some(0))]), vec![42]);
}

#[test]
fn start_defaults_to_zero() {
    assert_eq!(compute_segment_times(&[entry(None, 7, Some(2))]), vec![0, 7, 14]);
}

#[test]
fn empty_timeline_has_no_times() {
    assert_eq!(compute_segment_times(&[]), Vec::<i128>::new());
}

#[test]
fn entries_continue_where_the_last_ended() {
    let times = compute_segment_times(&[
        entry(Some(100), 10, Some(1)),
        entry(Some(999), 5, None),
        entry(None, 20, Some(2)),
    ]);
    assert_eq!(times, vec![100, 110, 120, 125, 145, 165]);
}

#[test]
fn negative_repeat_gives_no_time() {
    let times = compute_segment_times(&[
        entry(Some(0), 10, Some(-1)),
        entry(None, 5, Some(1)),
        entry(None, 5, Some(-7)),
    ]);
    assert_eq!(times, vec![0, 5]);
}

#[test]
fn times_do_not_overflow() {
    let times = compute_segment_times(&[entry(Some(i64::MAX), i64::MAX, Some(2))]);
    let m = i64::MAX as i128;
    assert_eq!(times, vec![m, 2 * m, 3 * m]);
    let times = compute_segment_times(&[entry(Some(i64::MIN), i64::MIN, Some(1))]);
    let m = i64::MIN as i128;
    assert_eq!(times, vec![m, 2 * m]);
}

#[test]
fn negative_durations_count_down() {
    assert_eq!(compute_segment_times(&[entry(Some(10), -4, Some(2))]), vec![10, 6, 2]);
}

#[test]
fn template_count_divides_the_period() {
    assert_eq!(count_template_segments(60, 1, 1), 60);
    assert_eq!(count_template_segments(60, 90000, 360000), 15);
    assert_eq!(count_template_segments(10, 3, 4), 7);
    assert_eq!(count_template_segments(0, 1000, 4), 0);
    assert_eq!(count_template_segments(60, 0, 4), 0);
}

#[test]
fn template_count_at_the_edges() {
    assert_eq!(count_template_segments(60, 1, -1), 0);
    assert_eq!(count_template_segments(60, 1, 0), usize::MAX);
    assert_eq!(count_template_segments(0, 1, 0), 0);
    assert_eq!(count_template_segments(u64::MAX, u64::MAX, 1), usize::MAX);
    assert_eq!(count_template_segments(u64::MAX, 1, i64::MAX), 2);
}

#[test]
fn arithmetic_times() {
    assert_eq!(time_of_index(0, 1000), 0);
    assert_eq!(time_of_index(3, 1000), 3000);
    assert_eq!(time_of_index(5, -2), -10);
    assert_eq!(time_of_index(usize::MAX, i64::MIN), (usize::MAX as i128) * (i64::MIN as i128));
}
