use std::collections::HashSet;

use smartdns_ui::hourly::{
    hourly_detail_live_ranges, local_hour_start_fits, local_hour_start_ms, missing_hour_ranges,
    HOURLY_DETAIL_HOUR_MS,
};
use smartdns_ui::query_log::{bucket_start, DAY_MS};
use smartdns_ui::summary::{hourly_detail_hours_covered, refresh_fits};
use smartdns_ui::window::{report_window, report_window_fits};
use smartdns_ui::db::DB;

const HOUR: u64 = HOURLY_DETAIL_HOUR_MS;

#[test]
fn local_hour_start_ms_rounds_down_to_local_hour() {
    // a full hour at UTC offset 0
    assert_eq!(local_hour_start_ms(10 * HOUR, 0), 10 * HOUR);
    // within an hour at UTC offset 0
    assert_eq!(local_hour_start_ms(10 * HOUR + 1_234_567, 0), 10 * HOUR);
    // an offset that is no full hour (+5:30) falls into the UTC hour before
    assert_eq!(
        local_hour_start_ms(10 * HOUR + 1_234_567, 19_800),
        9 * HOUR + 1_800_000
    );
    // a negative offset (-5:00)
    assert_eq!(local_hour_start_ms(10 * HOUR + 1_234_567, -18_000), 10 * HOUR);
    // the start of the epoch with a positive offset does not go below zero
    assert_eq!(local_hour_start_ms(0, 28_800), 0);
    // a fixed real timestamp
    assert_eq!(
        local_hour_start_ms(1_700_000_000_000, 28_800),
        1_699_999_200_000
    );
}

#[test]
fn local_hour_start_ms_invariants() {
    for ts in [10 * HOUR, 10 * HOUR + 1_234_567, 1_700_000_000_000] {
        for off in [0i64, 28_800, 19_800, -18_000, -28_800] {
            let hour = local_hour_start_ms(ts, off);
            let off_ms = off * 1000;
            assert!(hour <= ts, "ts={} off={}", ts, off);
            assert!(ts - hour < HOUR, "ts={} off={}", ts, off);
            assert_eq!(
                (hour as i64 + off_ms).rem_euclid(HOUR as i64),
                0,
                "ts={} off={}",
                ts,
                off
            );
        }
    }
}

#[test]
fn live_ranges_tile_window_with_stored_range() {
    let boundary = 100 * HOUR;
    let current = 103 * HOUR;
    let window_start = boundary + 1_000;

    let ranges = hourly_detail_live_ranges(boundary, current, window_start);
    assert_eq!(
        ranges,
        vec![(window_start, boundary + HOUR), (current, u64::MAX)]
    );

    let mut all = ranges;
    all.push((boundary + HOUR, current));
    all.sort();

    assert_eq!(all[0].0, window_start);
    for pair in all.windows(2) {
        assert_eq!(pair[0].1, pair[1].0, "gap or overlap in {:?}", all);
    }
    assert_eq!(all.last().unwrap().1, u64::MAX);
}

#[test]
fn live_ranges_collapse_when_window_inside_current_hour() {
    let current = 100 * HOUR;
    let window_start = current + 60_000;

    assert_eq!(
        hourly_detail_live_ranges(current, current, window_start),
        vec![(window_start, u64::MAX)]
    );
}

#[test]
fn missing_hour_ranges_coalesces_gaps() {
    let first = 100 * HOUR;
    let to = 106 * HOUR;
    let present: HashSet<u64> = [first, first + 2 * HOUR, first + 5 * HOUR]
        .into_iter()
        .collect();

    assert_eq!(
        missing_hour_ranges(&present, first, to),
        vec![
            (first + HOUR, first + 2 * HOUR),
            (first + 3 * HOUR, first + 5 * HOUR),
        ]
    );

    // nothing is missing where every hour is there
    let all: HashSet<u64> = (0..6).map(|i| first + i * HOUR).collect();
    assert!(missing_hour_ranges(&all, first, to).is_empty());
}

#[test]
fn live_and_missing_ranges_tile_window_without_stored_holes() {
    let boundary = 100 * HOUR;
    let current = 104 * HOUR;
    let window_start = boundary + 42_000;
    let stored_from = boundary + HOUR;
    let present: HashSet<u64> = [stored_from, stored_from + 2 * HOUR].into_iter().collect();

    let mut all: Vec<(u64, u64)> = missing_hour_ranges(&present, stored_from, current);
    all.extend(hourly_detail_live_ranges(boundary, current, window_start));
    all.extend(present.iter().map(|hour| (*hour, *hour + HOUR)));
    all.sort();

    assert_eq!(all[0].0, window_start);
    for pair in all.windows(2) {
        assert_eq!(pair[0].1, pair[1].0, "gap or overlap in {:?}", all);
    }
    assert_eq!(all.last().unwrap().1, u64::MAX);
    // the hour in which the window begins is counted once
    assert_eq!(all.iter().filter(|(s, _)| *s == window_start).count(), 1);
}

#[test]
fn missing_ranges_may_reach_into_an_unaligned_end() {
    let first = 10 * HOUR;
    let present: HashSet<u64> = HashSet::new();
    assert_eq!(
        missing_hour_ranges(&present, first, first + HOUR + 1),
        vec![(first, first + 2 * HOUR)]
    );
    assert!(missing_hour_ranges(&present, first, first).is_empty());
}

#[test]
fn local_hour_is_monotone_and_fixed() {
    for off in [0i64, 19_800, -12_600] {
        let mut last = 0;
        for step in 0..200u64 {
            let ts = 1_700_000_000_000 + step * 617_003;
            let hour = local_hour_start_ms(ts, off);
            assert!(hour >= last);
            assert_eq!(local_hour_start_ms(hour, off), hour);
            last = hour;
        }
    }
}

#[test]
fn local_hour_is_refused_where_it_leaves_the_range() {
    assert!(local_hour_start_fits(1_700_000_000_000, 28_800));
    assert!(!local_hour_start_fits(i64::MAX as u64, 28_800));
    assert!(!local_hour_start_fits(0, i64::MAX));
    assert!(!local_hour_start_fits(i64::MAX as u64 + 1, -1));
}

#[test]
fn rows_are_counted_in_their_local_hour_and_day() {
    for off in [0i32, 28_800, 19_800, -18_000] {
        for ts in [1_700_000_000_000u64, 1_700_003_599_999, 1_699_999_200_000] {
            let hour = bucket_start(ts, off, HOUR);
            assert_eq!(hour, local_hour_start_ms(ts, off as i64));
            let day = bucket_start(ts, off, DAY_MS);
            assert!(day <= hour && hour - day < DAY_MS);
            assert_eq!((day as i64 + off as i64 * 1000).rem_euclid(DAY_MS as i64), 0);
        }
    }
    assert_eq!(bucket_start(1_700_000_000_000, 28_800, DAY_MS), 1_699_977_600_000);
}

#[test]
fn window_begins_at_full_seconds_or_at_the_oldest_row() {
    let now = 1_700_000_000_123;
    let w = report_window(now, 0, 24, Some(1)).unwrap();
    assert_eq!(w.window_start, 1_700_000_000_000 - 24 * HOUR);
    assert_eq!(w.current_hour, local_hour_start_ms(now, 0));
    assert_eq!(w.boundary_hour, local_hour_start_ms(w.window_start, 0));
    assert_eq!(w.stored_from, w.boundary_hour + HOUR);

    let oldest = now - 2 * HOUR;
    let w = report_window(now, 0, 24, Some(oldest as i64)).unwrap();
    assert_eq!(w.window_start, oldest);

    // no finished hour in the window
    let w = report_window(now, 0, 0, Some(1)).unwrap();
    assert_eq!(w.boundary_hour, w.current_hour);
    assert_eq!(w.stored_from, w.current_hour);

    // an empty log, or one without a time
    assert!(report_window(now, 0, 24, None).is_none());
    assert!(report_window(now, 0, 24, Some(0)).is_none());
    assert!(report_window(now, 0, 24, Some(-5)).is_none());
    assert!(report_window_fits(now, 0, 24, None));
    assert!(!report_window_fits(u64::MAX / 2 + 5, -1, 24, None));
}

#[test]
fn refresh_covers_full_hours_within_the_retention() {
    let db = DB::new(false);
    let now = 1_700_000_000_000;
    let current = local_hour_start_ms(now, 0);
    let retention = 24 * HOUR;
    assert!(refresh_fits(now, retention, 0));
    let w = db.refresh_hourly_detail(now, retention, 0).unwrap();
    assert_eq!(w.current_hour, current);
    assert_eq!(w.first_full_hour, current - 23 * HOUR);
    // everything where an hour is missing, the last three hours otherwise
    assert_eq!(w.span_to_summarize(false), Some((current - 23 * HOUR, current)));
    assert_eq!(w.span_to_summarize(true), Some((current - 3 * HOUR, current)));

    // a short retention: the hour that it cuts off is left alone
    let w = db.refresh_hourly_detail(now, 2 * HOUR, 0).unwrap();
    assert_eq!(w.first_full_hour, current - HOUR);
    assert_eq!(w.span_to_summarize(true), Some((current - HOUR, current)));
    assert_eq!(w.span_to_summarize(false), Some((current - HOUR, current)));

    // no full hour within the retention
    assert!(db.refresh_hourly_detail(now, 1000, 0).is_none());
}

#[test]
fn coverage_compares_sets_of_hours() {
    assert!(hourly_detail_hours_covered(&vec![], &vec![]));
    assert!(hourly_detail_hours_covered(&vec![3, 1], &vec![1, 2, 3]));
    // a hole in the middle is found
    assert!(!hourly_detail_hours_covered(&vec![1, 2, 3], &vec![1, 3]));
    // hours before 1970 count as 1970
    assert!(hourly_detail_hours_covered(&vec![-7], &vec![0]));
}
