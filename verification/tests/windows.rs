use gapfill_delta::{
    expected_deltas, gapfill_delta_final, gapfill_delta_transition, Endpoints, GapfillDeltaTransition,
    GapfillError,
};

const SEC: i64 = 1_000_000;

fn deltas(entries: &[Option<Endpoints<f64>>]) -> Vec<Option<f64>> {
    let mut out = Vec::new();
    for entry in entries {
        out.push(entry.map(|e| e.first - e.last));
    }
    out
}

fn feed(
    lowest: i64,
    greatest: i64,
    step: i64,
    window: i64,
    samples: &[(i64, f64)],
) -> Vec<Option<Endpoints<f64>>> {
    let mut run = GapfillDeltaTransition::new(lowest, greatest, step, window).unwrap();
    for (time, value) in samples {
        run.add_data_point(*time, *value);
    }
    run.to_pg_array()
}

fn pair(first: f64, last: f64) -> Option<Endpoints<f64>> {
    Some(Endpoints { first, last })
}

#[test]
fn four_windows_of_five_seconds() {
    let samples = [(18 * SEC, 10.0), (16 * SEC, 4.0), (11 * SEC, 7.0), (1 * SEC, 2.0)];
    let entries = feed(0, 20 * SEC, 5, 5, &samples);
    assert_eq!(entries, vec![pair(10.0, 4.0), None, None, None]);
    assert_eq!(deltas(&entries), vec![Some(6.0), None, None, None]);
}

#[test]
fn four_windows_through_the_aggregate_steps() {
    let samples = [(18 * SEC, 10.0), (16 * SEC, 4.0), (11 * SEC, 7.0), (1 * SEC, 2.0)];
    let mut state = None;
    for (time, value) in samples {
        state = Some(gapfill_delta_transition(state, 0, 20 * SEC, 5, 5, time, value).unwrap());
    }
    let entries = gapfill_delta_final(state).unwrap();
    assert_eq!(deltas(&entries), vec![Some(6.0), None, None, None]);
}

#[test]
fn equal_first_and_last_give_zero_not_null() {
    let entries = feed(0, 20 * SEC, 5, 5, &[(19 * SEC, 3.5), (17 * SEC, 3.5)]);
    assert_eq!(entries, vec![pair(3.5, 3.5)]);
    assert_eq!(deltas(&entries), vec![Some(0.0)]);
}

#[test]
fn zero_window_size_is_refused() {
    let made = GapfillDeltaTransition::<f64>::new(0, 20 * SEC, 5, 0);
    assert_eq!(made.err(), Some(GapfillError::Configuration));
}

#[test]
fn zero_step_size_is_refused() {
    let made = GapfillDeltaTransition::<f64>::new(0, 20 * SEC, 0, 5);
    assert_eq!(made.err(), Some(GapfillError::Configuration));
}

#[test]
fn negative_sizes_are_refused() {
    assert_eq!(
        GapfillDeltaTransition::<f64>::new(0, 20 * SEC, -1, 5).err(),
        Some(GapfillError::Configuration)
    );
    assert_eq!(
        GapfillDeltaTransition::<f64>::new(0, 20 * SEC, 5, -1).err(),
        Some(GapfillError::Configuration)
    );
}

#[test]
fn bounds_out_of_order_are_refused() {
    assert_eq!(
        GapfillDeltaTransition::<f64>::new(20 * SEC, 20 * SEC, 5, 5).err(),
        Some(GapfillError::Configuration)
    );
    assert_eq!(
        GapfillDeltaTransition::<f64>::new(21 * SEC, 20 * SEC, 5, 5).err(),
        Some(GapfillError::Configuration)
    );
    assert!(GapfillDeltaTransition::<f64>::new(20 * SEC - 1, 20 * SEC, 5, 5).is_ok());
}

#[test]
fn first_sample_with_a_zero_size_is_refused() {
    let no_step = gapfill_delta_transition(None, 0, 20 * SEC, 0, 5, 18 * SEC, 1.0);
    assert_eq!(no_step.err(), Some(GapfillError::Configuration));
    let no_window = gapfill_delta_transition(None, 0, 20 * SEC, 5, 0, 18 * SEC, 1.0);
    assert_eq!(no_window.err(), Some(GapfillError::Configuration));
}

#[test]
fn sample_at_or_below_the_lowest_time_is_refused() {
    let at = gapfill_delta_transition(None, 0, 20 * SEC, 5, 5, 0, 1.0);
    assert_eq!(at.err(), Some(GapfillError::TimestampOutOfRange));
    let below = gapfill_delta_transition(None, 0, 20 * SEC, 5, 5, -1, 1.0);
    assert_eq!(below.err(), Some(GapfillError::TimestampOutOfRange));
    assert!(gapfill_delta_transition(None, 0, 20 * SEC, 5, 5, 1, 1.0).is_ok());
}

#[test]
fn sample_after_the_greatest_time_is_refused() {
    let after = gapfill_delta_transition(None, 0, 20 * SEC, 5, 5, 20 * SEC + 1, 1.0);
    assert_eq!(after.err(), Some(GapfillError::TimestampOutOfRange));
    assert!(gapfill_delta_transition(None, 0, 20 * SEC, 5, 5, 20 * SEC, 1.0).is_ok());
}

#[test]
fn range_is_looked_at_before_the_sizes() {
    let both = gapfill_delta_transition(None, 0, 20 * SEC, 0, 0, 21 * SEC, 1.0);
    assert_eq!(both.err(), Some(GapfillError::TimestampOutOfRange));
}

#[test]
fn later_samples_leave_the_sizes_unread() {
    let first = gapfill_delta_transition(None, 0, 20 * SEC, 5, 5, 18 * SEC, 10.0).unwrap();
    let second = gapfill_delta_transition(Some(first), 0, 20 * SEC, 0, 0, 16 * SEC, 4.0).unwrap();
    let entries = gapfill_delta_final(Some(second)).unwrap();
    assert_eq!(entries, vec![pair(10.0, 4.0)]);
}

#[test]
fn later_samples_are_still_held_to_the_range() {
    let first = gapfill_delta_transition(None, 0, 20 * SEC, 5, 5, 18 * SEC, 10.0).unwrap();
    let second = gapfill_delta_transition(Some(first), 0, 20 * SEC, 5, 5, 0, 4.0);
    assert_eq!(second.err(), Some(GapfillError::TimestampOutOfRange));
}

#[test]
fn final_step_without_a_state_yields_nothing() {
    assert_eq!(gapfill_delta_final::<f64>(None), None);
}

#[test]
fn run_without_samples_yields_one_null() {
    let entries = feed(0, 20 * SEC, 5, 5, &[]);
    assert_eq!(entries, vec![None]);
}

#[test]
fn window_with_one_sample_yields_null() {
    let entries = feed(0, 20 * SEC, 5, 5, &[(18 * SEC, 10.0)]);
    assert_eq!(entries, vec![None]);
}

#[test]
fn window_with_three_samples_yields_first_and_last() {
    let entries = feed(0, 20 * SEC, 5, 5, &[(19 * SEC, 8.0), (18 * SEC, 100.0), (17 * SEC, 3.0)]);
    assert_eq!(entries, vec![pair(8.0, 3.0)]);
    assert_eq!(deltas(&entries), vec![Some(5.0)]);
}

#[test]
fn first_and_last_go_by_arrival_not_by_time() {
    let entries = feed(0, 20 * SEC, 5, 5, &[(16 * SEC, 1.0), (19 * SEC, 2.0), (17 * SEC, 4.0)]);
    assert_eq!(entries, vec![pair(1.0, 4.0)]);
    assert_eq!(deltas(&entries), vec![Some(-3.0)]);
}

#[test]
fn every_run_yields_at_least_one_entry() {
    for samples in [vec![], vec![(20 * SEC, 1.0)], vec![(1, 1.0)], vec![(20 * SEC, 1.0), (1, 2.0)]] {
        assert!(feed(0, 20 * SEC, 5, 5, &samples).len() >= 1);
    }
}

#[test]
fn entry_count_does_not_depend_on_values() {
    let times = [19 * SEC, 17 * SEC, 12 * SEC, 11 * SEC, 3 * SEC];
    let small: Vec<(i64, f64)> = times.iter().map(|t| (*t, 0.0)).collect();
    let large: Vec<(i64, f64)> = times.iter().map(|t| (*t, 1.0e300 * (*t as f64))).collect();
    let a = feed(0, 20 * SEC, 5, 5, &small);
    let b = feed(0, 20 * SEC, 5, 5, &large);
    assert_eq!(a.len(), 4);
    assert_eq!(b.len(), 4);
    for i in 0..4 {
        assert_eq!(a[i].is_some(), b[i].is_some());
    }
}

#[test]
fn entry_count_is_one_per_window_shift() {
    let mut run = GapfillDeltaTransition::new(0, 100 * SEC, 10, 10).unwrap();
    run.add_data_point(95 * SEC, 1.0);
    run.add_data_point(45 * SEC, 2.0);
    let entries = run.to_pg_array();
    assert_eq!(entries.len(), 6);
}

#[test]
fn three_empty_windows_give_three_nulls() {
    let samples = [(19 * SEC, 9.0), (18 * SEC, 7.0), (4 * SEC, 5.0), (3 * SEC, 1.0)];
    let entries = feed(0, 20 * SEC, 4, 4, &samples);
    assert_eq!(entries, vec![pair(9.0, 7.0), None, None, None, pair(5.0, 1.0)]);
}

#[test]
fn gap_before_the_first_sample_gives_nulls() {
    let entries = feed(0, 20 * SEC, 5, 5, &[(3 * SEC, 5.0), (2 * SEC, 1.0)]);
    assert_eq!(entries, vec![None, None, None, pair(5.0, 1.0)]);
}

#[test]
fn long_gap_gives_one_null_per_window() {
    let entries = feed(0, 5000 * SEC, 1, 1, &[(5000 * SEC, 1.0), (1, 2.0)]);
    assert_eq!(entries.len(), 5000);
    assert!(entries.iter().all(|e| e.is_none()));
}

#[test]
fn sample_at_the_lower_bound_closes_the_window() {
    let samples = [(18 * SEC, 1.0), (17 * SEC, 2.0), (15 * SEC, 9.0)];
    let entries = feed(0, 20 * SEC, 5, 5, &samples);
    assert_eq!(entries, vec![pair(1.0, 2.0), None]);
}

#[test]
fn sample_just_above_the_lower_bound_stays_in_the_window() {
    let samples = [(18 * SEC, 1.0), (17 * SEC, 2.0), (15 * SEC + 1, 9.0)];
    let entries = feed(0, 20 * SEC, 5, 5, &samples);
    assert_eq!(entries, vec![pair(1.0, 9.0)]);
}

#[test]
fn sample_at_the_upper_bound_is_in_the_window() {
    let samples = [(20 * SEC, 1.0), (19 * SEC, 2.0), (15 * SEC, 3.0), (14 * SEC, 7.0)];
    let entries = feed(0, 20 * SEC, 5, 5, &samples);
    assert_eq!(entries, vec![pair(1.0, 2.0), pair(3.0, 7.0)]);
}

#[test]
fn sample_two_windows_down_at_a_lower_bound_closes_two() {
    let entries = feed(0, 20 * SEC, 5, 5, &[(10 * SEC, 1.0)]);
    assert_eq!(entries, vec![None, None, None]);
}

#[test]
fn step_larger_than_window_leaves_gaps() {
    let samples = [(19 * SEC, 4.0), (18 * SEC, 1.0), (9 * SEC, 10.0), (8 * SEC, 2.0)];
    let entries = feed(0, 20 * SEC, 10, 3, &samples);
    assert_eq!(entries, vec![pair(4.0, 1.0), pair(10.0, 2.0)]);
}

#[test]
fn buffered_samples_of_a_closed_window_are_not_counted_again() {
    let samples = [(19 * SEC, 4.0), (18 * SEC, 1.0), (14 * SEC, 10.0)];
    let entries = feed(0, 20 * SEC, 5, 5, &samples);
    assert_eq!(entries, vec![pair(4.0, 1.0), None]);
}

#[test]
fn step_smaller_than_window_keeps_what_is_not_later_than_the_new_window() {
    let samples = [(19 * SEC, 1.0), (12 * SEC, 2.0), (11 * SEC, 3.0), (9 * SEC, 4.0)];
    let entries = feed(0, 20 * SEC, 2, 10, &samples);
    assert_eq!(entries, vec![pair(1.0, 3.0), pair(2.0, 4.0)]);
}

#[test]
fn stale_samples_leave_from_the_front_only() {
    let samples = [(12 * SEC, 1.0), (19 * SEC, 2.0), (11 * SEC, 3.0), (9 * SEC, 4.0)];
    let entries = feed(0, 20 * SEC, 2, 10, &samples);
    assert_eq!(entries, vec![pair(1.0, 3.0), pair(1.0, 4.0)]);
}

#[test]
fn expected_deltas_is_span_over_step_plus_one() {
    assert_eq!(expected_deltas(0, 20 * SEC, 5), 5);
    assert_eq!(expected_deltas(0, 20 * SEC - 1, 5), 4);
    assert_eq!(expected_deltas(0, 1, 5), 1);
    assert_eq!(expected_deltas(-10 * SEC, 10 * SEC, 1), 21);
}

#[test]
fn extreme_bounds_and_sizes_are_taken() {
    let mut run = GapfillDeltaTransition::new(i64::MIN, i64::MAX, i64::MAX, i64::MAX).unwrap();
    run.add_data_point(i64::MAX, 1.0);
    run.add_data_point(i64::MIN + 1, 2.0);
    assert_eq!(run.to_pg_array(), vec![pair(1.0, 2.0)]);
}

#[test]
fn lowest_times_are_reached_without_overflow() {
    let mut run = GapfillDeltaTransition::new(i64::MIN, i64::MIN + 10 * SEC, 4, 4).unwrap();
    run.add_data_point(i64::MIN + 10 * SEC, 1.0);
    run.add_data_point(i64::MIN + 1, 2.0);
    assert_eq!(run.to_pg_array(), vec![None, None, None]);
}

#[test]
fn values_need_not_be_floats() {
    let mut run = GapfillDeltaTransition::<u32>::new(0, 20 * SEC, 5, 5).unwrap();
    run.add_data_point(18 * SEC, 10);
    run.add_data_point(16 * SEC, 4);
    assert_eq!(run.to_pg_array(), vec![Some(Endpoints { first: 10, last: 4 })]);
}
