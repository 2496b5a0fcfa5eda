//! Hours of local time, and the spans of time that hourly figures are read from.

use std::collections::HashSet;

use vstd::prelude::*;

verus! {

/// The milliseconds of an hour.
pub const HOURLY_DETAIL_HOUR_MS: u64 = 3_600_000;

/// How many finished hours each hourly summary computes anew, for rows that
/// reached the log late.
pub const HOURLY_DETAIL_RECHECK_HOURS: u64 = 3;

/// A 64-bit pattern read as a signed number.
pub open spec fn signed(ts: u64) -> int {
    if ts <= i64::MAX {
        ts as int
    } else {
        ts - 0x1_0000_0000_0000_0000
    }
}

/// A number modulo the 64-bit range.
pub open spec fn unsigned(n: int) -> u64 {
    (n % 0x1_0000_0000_0000_0000) as u64
}

/// The local time of an instant, in milliseconds.
pub open spec fn local_ms(ts: u64, local_offset_secs: i64) -> int {
    signed(ts) + local_offset_secs * 1000
}

/// The start of the local hour of an instant, counted in milliseconds of UTC;
/// below zero for an hour that began before 1970.
pub open spec fn hour_start_int(ts: u64, local_offset_secs: i64) -> int {
    signed(ts) - local_ms(ts, local_offset_secs) % (HOURLY_DETAIL_HOUR_MS as int)
}

/// The start of the local hour of an instant as a 64-bit number.
pub open spec fn hour_start(ts: u64, local_offset_secs: i64) -> u64 {
    unsigned(hour_start_int(ts, local_offset_secs))
}

pub open spec fn fits_i64(n: int) -> bool {
    i64::MIN <= n <= i64::MAX
}

/// The steps from an instant to the start of its local hour stay within 64 bits.
pub open spec fn hour_start_in_range(ts: u64, local_offset_secs: i64) -> bool {
    &&& fits_i64(local_offset_secs * 1000)
    &&& fits_i64(local_ms(ts, local_offset_secs))
    &&& fits_i64(hour_start_int(ts, local_offset_secs) + local_offset_secs * 1000)
    &&& fits_i64(hour_start_int(ts, local_offset_secs))
}

/// Reads a 64-bit pattern as a signed number.
pub fn as_signed(ts: u64) -> (r: i64)
    ensures
        r == signed(ts),
{
    let r: i64 = ts as i64;
    assert(ts <= 0x7fff_ffff_ffff_ffff ==> ts as i64 == ts) by (bit_vector);
    assert(ts > 0x7fff_ffff_ffff_ffff ==> ts as i64 == ts - 0x1_0000_0000_0000_0000)
        by (bit_vector);
    r
}

/// Reads a signed number as a 64-bit pattern.
pub fn as_unsigned(n: i64) -> (r: u64)
    ensures
        r == unsigned(n as int),
{
    let r: u64 = n as u64;
    assert(n >= 0 ==> n as u64 == n) by (bit_vector);
    assert(n < 0 ==> n as u64 == n + 0x1_0000_0000_0000_0000) by (bit_vector);
    r
}

/// Computes the start of the local hour of an instant, in milliseconds of UTC:
/// shift to local time, round down to the hour, shift back.
pub fn local_hour_start_ms(timestamp_ms: u64, local_offset_secs: i64) -> (r: u64)
    requires
        hour_start_in_range(timestamp_ms, local_offset_secs),
    ensures
        r == hour_start(timestamp_ms, local_offset_secs),
{
    let offset_ms: i64 = local_offset_secs * 1000;
    let local: i64 = as_signed(timestamp_ms) + offset_ms;
    let past_hour: i64 = match local.checked_rem_euclid(HOURLY_DETAIL_HOUR_MS as i64) {
        Some(v) => v,
        None => 0,
    };
    let hour_local: i64 = local - past_hour;
    as_unsigned(hour_local - offset_ms)
}

/// Tells whether the local hour of an instant can be computed.
pub fn local_hour_start_fits(timestamp_ms: u64, local_offset_secs: i64) -> (r: bool)
    ensures
        r == hour_start_in_range(timestamp_ms, local_offset_secs),
{
    let offset_ms: i64 = match local_offset_secs.checked_mul(1000) {
        Some(v) => v,
        None => return false,
    };
    let local: i64 = match as_signed(timestamp_ms).checked_add(offset_ms) {
        Some(v) => v,
        None => return false,
    };
    let past_hour: i64 = match local.checked_rem_euclid(HOURLY_DETAIL_HOUR_MS as i64) {
        Some(v) => v,
        None => 0,
    };
    match local.checked_sub(past_hour) {
        Some(hour_local) => hour_local.checked_sub(offset_ms).is_some(),
        None => false,
    }
}

/// The start of an hour is not after the instant, less than an hour before it,
/// and a full hour of local time.
pub proof fn law_hour_start_is_the_local_hour(ts: u64, local_offset_secs: i64)
    requires
        hour_start_int(ts, local_offset_secs) >= 0,
    ensures
        hour_start(ts, local_offset_secs) <= ts,
        ts - hour_start(ts, local_offset_secs) < HOURLY_DETAIL_HOUR_MS,
        (hour_start(ts, local_offset_secs) + local_offset_secs * 1000) % (
        HOURLY_DETAIL_HOUR_MS as int) == 0,
{
}

/// A later instant has no earlier hour.
pub proof fn law_hour_start_is_monotone(a: u64, b: u64, local_offset_secs: i64)
    requires
        a <= b,
        hour_start_int(a, local_offset_secs) >= 0,
        hour_start_int(b, local_offset_secs) >= 0,
    ensures
        hour_start(a, local_offset_secs) <= hour_start(b, local_offset_secs),
{
}

/// The start of an hour lies in the hour that it starts.
pub proof fn law_hour_start_is_fixed(ts: u64, local_offset_secs: i64)
    requires
        hour_start_int(ts, local_offset_secs) >= 0,
    ensures
        hour_start(hour_start(ts, local_offset_secs), local_offset_secs) == hour_start(
            ts,
            local_offset_secs,
        ),
{
}

/// A span of time, from its first instant up to its last but one.
pub open spec fn within(t: int, span: (u64, u64)) -> bool {
    span.0 <= t < span.1
}

/// The spans that are read from the log itself: the rest of the hour in which
/// the window begins, and the hour that has not ended; one span where both are
/// the same hour.
pub open spec fn live_ranges(boundary_hour: u64, current_hour: u64, window_start: u64) -> Seq<
    (u64, u64),
> {
    if boundary_hour < current_hour {
        seq![
            (window_start, (boundary_hour + HOURLY_DETAIL_HOUR_MS) as u64),
            (current_hour, u64::MAX),
        ]
    } else {
        seq![(window_start, u64::MAX)]
    }
}

/// Computes the spans of an hourly report that are read from the log itself
/// even when every summary is there: the rest of `boundary_hour`, in which the
/// window begins at `window_start`, and `current_hour`, which has not ended.
pub fn hourly_detail_live_ranges(boundary_hour: u64, current_hour: u64, window_start: u64) -> (r: Vec<
    (u64, u64),
>)
    requires
        boundary_hour < current_hour ==> boundary_hour + HOURLY_DETAIL_HOUR_MS <= u64::MAX,
    ensures
        r@ == live_ranges(boundary_hour, current_hour, window_start),
{
    let mut r: Vec<(u64, u64)> = Vec::new();
    if boundary_hour < current_hour {
        r.push((window_start, boundary_hour + HOURLY_DETAIL_HOUR_MS));
        r.push((current_hour, u64::MAX));
    } else {
        r.push((window_start, u64::MAX));
    }
    assert(r@ =~= live_ranges(boundary_hour, current_hour, window_start));
    r
}

/// `hour` is one of the hours counted from `first`.
pub open spec fn on_grid(first: u64, hour: int) -> bool {
    first <= hour && (hour - first) % (HOURLY_DETAIL_HOUR_MS as int) == 0
}

/// Some span of the list holds the instant.
pub open spec fn covered(spans: Seq<(u64, u64)>, t: int) -> bool {
    exists|i: int| 0 <= i < spans.len() && within(t, #[trigger] spans[i])
}

/// The spans are made of full hours counted from `first`, begin before `to`,
/// end no later than the hour in which `to` falls, and leave room between neighbours.
pub open spec fn separate_hour_spans(spans: Seq<(u64, u64)>, first: u64, to: u64) -> bool {
    &&& forall|i: int|
        #![trigger spans[i]]
        0 <= i < spans.len() ==> {
            &&& on_grid(first, spans[i].0 as int)
            &&& on_grid(first, spans[i].1 as int)
            &&& spans[i].0 < spans[i].1
            &&& spans[i].1 < to + HOURLY_DETAIL_HOUR_MS
        }
    &&& forall|i: int, j: int|
        #![trigger spans[i], spans[j]]
        0 <= i < j < spans.len() ==> spans[i].1 < spans[j].0
}

/// The spans are the maximal runs of full hours from `first` to `to` that `present` lacks.
pub open spec fn are_missing_ranges(
    spans: Seq<(u64, u64)>,
    present: Set<u64>,
    first: u64,
    to: u64,
) -> bool {
    &&& separate_hour_spans(spans, first, to)
    &&& forall|hour: u64|
        on_grid(first, hour as int) && hour < to ==> (#[trigger] covered(spans, hour as int)
            <==> !present.contains(hour))
}

/// The first full hour counted from `first` that is not before `to`.
pub open spec fn grid_end(first: u64, to: u64) -> int {
    if first < to {
        first + (to - first + HOURLY_DETAIL_HOUR_MS - 1) / (HOURLY_DETAIL_HOUR_MS as int)
            * HOURLY_DETAIL_HOUR_MS
    } else {
        first as int
    }
}

proof fn lemma_grid_step(first: u64, a: int, b: int)
    requires
        on_grid(first, a),
        on_grid(first, b),
    ensures
        a < b ==> a + HOURLY_DETAIL_HOUR_MS <= b,
{
}

proof fn lemma_grid_end(first: u64, to: u64, hour: int)
    requires
        on_grid(first, hour),
        hour < to,
    ensures
        hour + HOURLY_DETAIL_HOUR_MS <= grid_end(first, to),
        on_grid(first, hour + HOURLY_DETAIL_HOUR_MS),
{
}

/// Tells whether a set of hours holds an hour.
pub fn holds_hour(present: &HashSet<u64>, hour: u64) -> (r: bool)
    ensures
        r == present@.contains(hour),
{
    broadcast use vstd::std_specs::hash::group_hash_axioms;

    present.contains(&hour)
}

/// Every hour from `start` up to `hour` is missing.
spec fn run_is_missing(present: Set<u64>, first: u64, to: u64, start: u64, hour: u64) -> bool {
    forall|h: u64|
        #![trigger present.contains(h)]
        on_grid(first, h as int) && start <= h < hour ==> !present.contains(h) && h < to
}

/// The spans are right for every hour before `hour`.
spec fn settled(
    spans: Seq<(u64, u64)>,
    present: Set<u64>,
    first: u64,
    to: u64,
    hour: u64,
) -> bool {
    forall|h: u64|
        on_grid(first, h as int) && h < hour && h < to ==> (#[trigger] covered(spans, h as int)
            <==> !present.contains(h))
}

/// Steps over the missing hours that follow `start`.
fn missing_run_end(present: &HashSet<u64>, first_hour: u64, to_hour: u64, start: u64) -> (r: u64)
    requires
        grid_end(first_hour, to_hour) <= u64::MAX,
        on_grid(first_hour, start as int),
        start < to_hour,
        !present@.contains(start),
    ensures
        on_grid(first_hour, r as int),
        start < r < to_hour + HOURLY_DETAIL_HOUR_MS,
        run_is_missing(present@, first_hour, to_hour, start, r),
        r < to_hour ==> present@.contains(r),
{
    let mut hour: u64 = start;
    while hour < to_hour && !holds_hour(present, hour)
        invariant
            grid_end(first_hour, to_hour) <= u64::MAX,
            start < to_hour,
            start <= hour,
            on_grid(first_hour, start as int),
            on_grid(first_hour, hour as int),
            hour < to_hour + HOURLY_DETAIL_HOUR_MS,
            run_is_missing(present@, first_hour, to_hour, start, hour),
            hour == start ==> !present@.contains(hour),
        decreases to_hour + HOURLY_DETAIL_HOUR_MS - hour,
    {
        let ghost passed = hour;
        proof {
            lemma_grid_end(first_hour, to_hour, hour as int);
        }
        hour += HOURLY_DETAIL_HOUR_MS;
        assert forall|h: u64|
            #![trigger present@.contains(h)]
            on_grid(first_hour, h as int) && start <= h < hour implies !present@.contains(h) && h
            < to_hour by {
            lemma_grid_step(first_hour, passed as int, h as int);
        }
    }
    hour
}

proof fn lemma_run_settled(
    held: Seq<(u64, u64)>,
    present: Set<u64>,
    first: u64,
    to: u64,
    start: u64,
    hour: u64,
)
    requires
        settled(held, present, first, to, start),
        run_is_missing(present, first, to, start, hour),
        start < hour,
    ensures
        settled(held.push((start, hour)), present, first, to, hour),
{
    let r = held.push((start, hour));
    assert forall|h: u64|
        on_grid(first, h as int) && h < hour && h < to implies (#[trigger] covered(r, h as int)
        <==> !present.contains(h)) by {
        if h < start {
            assert(covered(held, h as int) <==> !present.contains(h));
            if covered(held, h as int) {
                let i = choose|i: int| 0 <= i < held.len() && within(h as int, #[trigger] held[i]);
                assert(within(h as int, r[i]));
            }
            if covered(r, h as int) {
                let i = choose|i: int| 0 <= i < r.len() && within(h as int, #[trigger] r[i]);
                assert(i < held.len());
                assert(within(h as int, held[i]));
            }
        } else {
            assert(within(h as int, r[held.len() as int]));
        }
    }
}

/// Finds the full hours from `first_hour` to `to_hour` that `present` lacks;
/// neighbours are merged into one span.
pub fn missing_hour_ranges(present: &HashSet<u64>, first_hour: u64, to_hour: u64) -> (r: Vec<
    (u64, u64),
>)
    requires
        grid_end(first_hour, to_hour) <= u64::MAX,
    ensures
        are_missing_ranges(r@, present@, first_hour, to_hour),
{
    let mut r: Vec<(u64, u64)> = Vec::new();
    let mut hour: u64 = first_hour;
    while hour < to_hour
        invariant
            grid_end(first_hour, to_hour) <= u64::MAX,
            on_grid(first_hour, hour as int),
            hour == first_hour || hour < to_hour + HOURLY_DETAIL_HOUR_MS,
            separate_hour_spans(r@, first_hour, to_hour),
            forall|i: int| 0 <= i < r@.len() ==> (#[trigger] r@[i]).1 <= hour,
            r@.len() > 0 && r@.last().1 == hour && hour < to_hour ==> present@.contains(hour),
            settled(r@, present@, first_hour, to_hour, hour),
        decreases to_hour + HOURLY_DETAIL_HOUR_MS - hour,
    {
        if holds_hour(present, hour) {
            let ghost passed = hour;
            proof {
                lemma_grid_end(first_hour, to_hour, hour as int);
            }
            hour += HOURLY_DETAIL_HOUR_MS;
            assert forall|h: u64|
                on_grid(first_hour, h as int) && h < hour && h
                    < to_hour implies (#[trigger] covered(r@, h as int)
                <==> !present@.contains(h)) by {
                lemma_grid_step(first_hour, passed as int, h as int);
                if h == passed && covered(r@, h as int) {
                    let i = choose|i: int|
                        0 <= i < r@.len() && within(h as int, #[trigger] r@[i]);
                    assert(r@[i].1 <= passed);
                }
            }
        } else {
            let start: u64 = hour;
            hour = missing_run_end(present, first_hour, to_hour, start);
            proof {
                lemma_run_settled(r@, present@, first_hour, to_hour, start, hour);
            }
            r.push((start, hour));
        }
    }
    r
}

/// Exactly one of three statements holds.
pub open spec fn exactly_one(a: bool, b: bool, c: bool) -> bool {
    (a && !b && !c) || (!a && b && !c) || (!a && !b && c)
}

/// No instant lies in two spans of the list.
pub open spec fn disjoint(spans: Seq<(u64, u64)>) -> bool {
    forall|i: int, j: int, t: int|
        0 <= i < spans.len() && 0 <= j < spans.len() && #[trigger] within(t, spans[i])
            && #[trigger] within(t, spans[j]) ==> i == j
}

/// The spans read from the log and the span of the stored hours cover the
/// window without gap or overlap.
pub proof fn law_live_and_stored_spans_tile_the_window(
    boundary_hour: u64,
    current_hour: u64,
    window_start: u64,
    t: int,
)
    requires
        boundary_hour <= window_start,
        boundary_hour < current_hour ==> window_start < boundary_hour + HOURLY_DETAIL_HOUR_MS
            <= current_hour,
        window_start <= t < u64::MAX,
    ensures
        disjoint(live_ranges(boundary_hour, current_hour, window_start)),
        covered(live_ranges(boundary_hour, current_hour, window_start), t) <==> !(boundary_hour
            < current_hour && boundary_hour + HOURLY_DETAIL_HOUR_MS <= t < current_hour),
{
    let live = live_ranges(boundary_hour, current_hour, window_start);
    if boundary_hour < current_hour {
        if t < boundary_hour + HOURLY_DETAIL_HOUR_MS {
            assert(within(t, live[0]));
        } else if t >= current_hour {
            assert(within(t, live[1]));
        }
    } else {
        assert(within(t, live[0]));
    }
}

/// The instant lies in a stored hour of the span from `first` to `to`.
pub open spec fn in_stored_hour(present: Set<u64>, first: u64, to: u64, t: int) -> bool {
    exists|hour: u64|
        #![trigger present.contains(hour)]
        present.contains(hour) && on_grid(first, hour as int) && hour < to && hour <= t < hour
            + HOURLY_DETAIL_HOUR_MS
}

/// Every instant of the window is counted once: in a span read from the log, in
/// a span that makes up for a missing summary, or in a stored hour.
pub proof fn law_report_counts_every_instant_once(
    present: Set<u64>,
    boundary_hour: u64,
    current_hour: u64,
    window_start: u64,
    missing: Seq<(u64, u64)>,
    t: int,
)
    requires
        boundary_hour <= window_start < boundary_hour + HOURLY_DETAIL_HOUR_MS <= current_hour,
        on_grid(boundary_hour, current_hour as int),
        are_missing_ranges(
            missing,
            present,
            (boundary_hour + HOURLY_DETAIL_HOUR_MS) as u64,
            current_hour,
        ),
        window_start <= t < u64::MAX,
    ensures
        disjoint(live_ranges(boundary_hour, current_hour, window_start)),
        disjoint(missing),
        exactly_one(
            covered(live_ranges(boundary_hour, current_hour, window_start), t),
            covered(missing, t),
            in_stored_hour(
                present,
                (boundary_hour + HOURLY_DETAIL_HOUR_MS) as u64,
                current_hour,
                t,
            ),
        ),
{
    let first = (boundary_hour + HOURLY_DETAIL_HOUR_MS) as u64;
    let live = live_ranges(boundary_hour, current_hour, window_start);
    law_live_and_stored_spans_tile_the_window(boundary_hour, current_hour, window_start, t);
    assert(disjoint(missing)) by {
        assert forall|i: int, j: int, x: int|
            0 <= i < missing.len() && 0 <= j < missing.len() && #[trigger] within(x, missing[i])
                && #[trigger] within(x, missing[j]) implies i == j by {
            if i < j {
                assert(missing[i].1 < missing[j].0);
            } else if j < i {
                assert(missing[j].1 < missing[i].0);
            }
        }
    }
    if first <= t < current_hour {
        let hour = (t - (t - first) % (HOURLY_DETAIL_HOUR_MS as int)) as u64;
        assert(on_grid(first, hour as int));
        assert(covered(missing, hour as int) <==> !present.contains(hour));
        assert forall|i: int| 0 <= i < missing.len() implies (within(t, #[trigger] missing[i])
            <==> within(hour as int, missing[i])) by {
            lemma_grid_step(first, hour as int, missing[i].1 as int);
        }
        if covered(missing, t) {
            let i = choose|i: int| 0 <= i < missing.len() && within(t, #[trigger] missing[i]);
            assert(within(hour as int, missing[i]));
        }
        if covered(missing, hour as int) {
            let i = choose|i: int|
                0 <= i < missing.len() && within(hour as int, #[trigger] missing[i]);
            assert(within(t, missing[i]));
        }
        if in_stored_hour(present, first, current_hour, t) {
            let h = choose|h: u64|
                #![trigger present.contains(h)]
                present.contains(h) && on_grid(first, h as int) && h < current_hour && h <= t < h
                    + HOURLY_DETAIL_HOUR_MS;
            assert(h == hour);
        }
    } else {
        if covered(missing, t) {
            let i = choose|i: int| 0 <= i < missing.len() && within(t, #[trigger] missing[i]);
            assert(missing[i].1 <= current_hour);
        }
        if in_stored_hour(present, first, current_hour, t) {
            let h = choose|h: u64|
                #![trigger present.contains(h)]
                present.contains(h) && on_grid(first, h as int) && h < current_hour && h <= t < h
                    + HOURLY_DETAIL_HOUR_MS;
            assert(h + HOURLY_DETAIL_HOUR_MS <= current_hour);
        }
    }
}

/// The hour of an instant can be computed for every offset of a time zone and
/// every instant that is not within days of the largest signed number.
pub proof fn law_hours_can_be_computed(ts: u64, local_offset_secs: i64)
    requires
        ts <= 0x7fff_ffff_0000_0000,
        -1_000_000 <= local_offset_secs <= 1_000_000,
    ensures
        hour_start_in_range(ts, local_offset_secs),
{
}

} // verus!
