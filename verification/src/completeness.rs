//! Why the hourly report is complete: put together from stored summaries and
//! several scans, it holds what one scan of the whole window would give.

use vstd::prelude::*;

use crate::detail;
use crate::detail::{HourlyDetailGroupAgg, HourlyDetailScan, ScanRow};
use crate::filters;
use crate::hourly;
use crate::hourly::HOURLY_DETAIL_HOUR_MS;
use crate::report;
use crate::window;
use crate::window::ReportWindow;

verus! {

/// The figures are those of the rows; `total` is what a list of times adds up to.
pub open spec fn figures_of(
    a: HourlyDetailGroupAgg,
    rows: Seq<ScanRow>,
    total: spec_fn(Seq<u64>) -> u64,
) -> bool {
    &&& a.query_count == rows.len()
    &&& a.cached_count == rows.filter(detail::cached()).len()
    &&& a.blocked_count == rows.filter(detail::blocked()).len()
    &&& a.cached_time_sum == total(detail::times(rows.filter(detail::cached())))
    &&& a.cached_time_count == rows.filter(detail::cached()).len()
    &&& a.uncached_time_sum == total(detail::times(rows.filter(detail::uncached())))
    &&& a.uncached_time_count == rows.filter(detail::uncached()).len()
}

/// The rows that the figures `a` stand for.
pub open spec fn rows_of(
    a: HourlyDetailGroupAgg,
    rows: Seq<ScanRow>,
    local_offset_secs: i64,
) -> Seq<ScanRow> {
    rows.filter(detail::in_group(local_offset_secs, a.hour_timestamp, a.domain_group@))
}

/// The figures are those of the hour and the group of the row.
pub open spec fn stands_for(
    a: HourlyDetailGroupAgg,
    r: ScanRow,
    local_offset_secs: i64,
) -> bool {
    a.hour_timestamp == detail::row_hour(r, local_offset_secs) && a.domain_group@ == r.domain_group@
}

/// Some figures of the list are those of the hour and the group of the row.
pub open spec fn is_counted(
    aggs: Seq<HourlyDetailGroupAgg>,
    r: ScanRow,
    local_offset_secs: i64,
) -> bool {
    exists|j: int| 0 <= j < aggs.len() && stands_for(#[trigger] aggs[j], r, local_offset_secs)
}

/// Two figures are of the same hour and group.
pub open spec fn same_group(a: HourlyDetailGroupAgg, b: HourlyDetailGroupAgg) -> bool {
    a.hour_timestamp == b.hour_timestamp && a.domain_group@ == b.domain_group@
}

/// The figures of every hour and group that occurs in the rows, each once.
pub open spec fn summary_of(
    aggs: Seq<HourlyDetailGroupAgg>,
    rows: Seq<ScanRow>,
    local_offset_secs: i64,
    total: spec_fn(Seq<u64>) -> u64,
) -> bool {
    &&& forall|i: int, j: int|
        #![trigger aggs[i], aggs[j]]
        0 <= i < j < aggs.len() ==> !same_group(aggs[i], aggs[j])
    &&& forall|j: int|
        0 <= j < aggs.len() ==> figures_of(
            #[trigger] aggs[j],
            rows_of(aggs[j], rows, local_offset_secs),
            total,
        ) && rows_of(aggs[j], rows, local_offset_secs).len() > 0
    &&& forall|i: int|
        0 <= i < rows.len() ==> is_counted(aggs, #[trigger] rows[i], local_offset_secs)
}

/// The figures `a` complete those of a scan with the sums of its times.
pub open spec fn completes(
    a: HourlyDetailGroupAgg,
    s: HourlyDetailScan,
    total: spec_fn(Seq<u64>) -> u64,
) -> bool {
    &&& a.hour_timestamp == s.hour_timestamp
    &&& a.domain_group@ == s.domain_group@
    &&& a.query_count == s.query_count
    &&& a.cached_count == s.cached_count
    &&& a.blocked_count == s.blocked_count
    &&& a.cached_time_sum == total(s.cached_times@)
    &&& a.cached_time_count == s.cached_times@.len()
    &&& a.uncached_time_sum == total(s.uncached_times@)
    &&& a.uncached_time_count == s.uncached_times@.len()
}

/// A scan with the sums of its lists of times is completed, each sum for the
/// list that it is the sum of.
pub proof fn law_scan_is_completed_by_its_sums(
    s: HourlyDetailScan,
    total: spec_fn(Seq<u64>) -> u64,
)
    requires
        s.cached_times@.len() <= u64::MAX,
        s.uncached_times@.len() <= u64::MAX,
    ensures
        completes(
            detail::completed(s, total(s.cached_times@), total(s.uncached_times@)),
            s,
            total,
        ),
{
}

/// A scan whose times have been added up is a summary of its rows.
pub proof fn law_scan_is_a_summary(
    scans: Seq<HourlyDetailScan>,
    aggs: Seq<HourlyDetailGroupAgg>,
    rows: Seq<ScanRow>,
    local_offset_secs: i64,
    total: spec_fn(Seq<u64>) -> u64,
)
    requires
        detail::sums_up_all(scans, rows, local_offset_secs),
        aggs.len() == scans.len(),
        forall|j: int| 0 <= j < aggs.len() ==> completes(#[trigger] aggs[j], scans[j], total),
    ensures
        summary_of(aggs, rows, local_offset_secs, total),
{
    assert forall|i: int, j: int|
        #![trigger aggs[i], aggs[j]]
        0 <= i < j < aggs.len() implies !same_group(aggs[i], aggs[j]) by {
        assert(completes(aggs[i], scans[i], total) && completes(aggs[j], scans[j], total));
    }
    assert forall|j: int| 0 <= j < aggs.len() implies figures_of(
        #[trigger] aggs[j],
        rows_of(aggs[j], rows, local_offset_secs),
        total,
    ) && rows_of(aggs[j], rows, local_offset_secs).len() > 0 by {
        assert(completes(aggs[j], scans[j], total));
        assert(detail::sums_up(scans[j], detail::rows_of(scans[j], rows, local_offset_secs)));
    }
    assert forall|i: int| 0 <= i < rows.len() implies is_counted(
        aggs,
        #[trigger] rows[i],
        local_offset_secs,
    ) by {
        let j = choose|j: int|
            0 <= j < scans.len() && detail::stands_for(
                #[trigger] scans[j],
                rows[i],
                local_offset_secs,
            );
        assert(completes(aggs[j], scans[j], total));
        assert(stands_for(aggs[j], rows[i], local_offset_secs));
    }
}

pub open spec fn of_hour(hour: u64) -> spec_fn(HourlyDetailGroupAgg) -> bool {
    |a: HourlyDetailGroupAgg| a.hour_timestamp == hour
}

pub open spec fn in_hour(hour: u64, local_offset_secs: i64) -> spec_fn(ScanRow) -> bool {
    |r: ScanRow| detail::row_hour(r, local_offset_secs) == hour
}

pub proof fn lemma_filter_distinct(s: Seq<HourlyDetailGroupAgg>, f: spec_fn(HourlyDetailGroupAgg) -> bool)
    requires
        forall|i: int, j: int|
            #![trigger s[i], s[j]]
            0 <= i < j < s.len() ==> !same_group(s[i], s[j]),
    ensures
        forall|i: int, j: int|
            #![trigger s.filter(f)[i], s.filter(f)[j]]
            0 <= i < j < s.filter(f).len() ==> !same_group(s.filter(f)[i], s.filter(f)[j]),
    decreases s.len(),
{
    reveal(Seq::filter);
    if s.len() > 0 {
        let rest = s.drop_last();
        let kept = s.filter(f);
        lemma_filter_distinct(rest, f);
        filters::lemma_filter_members(rest, f);
        assert forall|i: int, j: int|
            #![trigger kept[i], kept[j]]
            0 <= i < j < kept.len() implies !same_group(kept[i], kept[j]) by {
            assert(kept[i] == rest.filter(f)[i]);
            if j < rest.filter(f).len() {
                assert(kept[j] == rest.filter(f)[j]);
            } else {
                assert(kept[j] == s.last());
                let k = choose|k: int| 0 <= k < rest.len() && rest[k] == rest.filter(f)[i];
                assert(!same_group(s[k], s[s.len() - 1]));
            }
        }
    }
}

/// The part of a summary that belongs to one hour sums up the rows of that hour.
pub proof fn law_summary_of_an_hour(
    aggs: Seq<HourlyDetailGroupAgg>,
    rows: Seq<ScanRow>,
    local_offset_secs: i64,
    total: spec_fn(Seq<u64>) -> u64,
    hour: u64,
)
    requires
        summary_of(aggs, rows, local_offset_secs, total),
    ensures
        summary_of(
            aggs.filter(of_hour(hour)),
            rows.filter(in_hour(hour, local_offset_secs)),
            local_offset_secs,
            total,
        ),
{
    let kept = aggs.filter(of_hour(hour));
    let part = rows.filter(in_hour(hour, local_offset_secs));
    lemma_filter_distinct(aggs, of_hour(hour));
    filters::lemma_filter_members(aggs, of_hour(hour));
    filters::lemma_filter_members(rows, in_hour(hour, local_offset_secs));
    assert forall|j: int| 0 <= j < kept.len() implies figures_of(
        #[trigger] kept[j],
        rows_of(kept[j], part, local_offset_secs),
        total,
    ) && rows_of(kept[j], part, local_offset_secs).len() > 0 by {
        let k = choose|k: int| 0 <= k < aggs.len() && aggs[k] == kept[j];
        assert(figures_of(aggs[k], rows_of(aggs[k], rows, local_offset_secs), total));
        let group = detail::in_group(local_offset_secs, hour, kept[j].domain_group@);
        filters::lemma_filter_and(rows, in_hour(hour, local_offset_secs), group, group);
    }
    assert forall|i: int| 0 <= i < part.len() implies is_counted(
        kept,
        #[trigger] part[i],
        local_offset_secs,
    ) by {
        let m = choose|m: int| 0 <= m < rows.len() && rows[m] == part[i];
        assert(is_counted(aggs, rows[m], local_offset_secs));
        let k = choose|k: int|
            0 <= k < aggs.len() && stands_for(#[trigger] aggs[k], rows[m], local_offset_secs);
        assert(kept.contains(aggs[k]));
        let j = choose|j: int| 0 <= j < kept.len() && kept[j] == aggs[k];
        assert(stands_for(kept[j], part[i], local_offset_secs));
    }
}

/// The figures of an hour.
pub open spec fn figures_at(
    figures: Map<u64, Seq<HourlyDetailGroupAgg>>,
    hour: u64,
) -> Seq<HourlyDetailGroupAgg> {
    if figures.dom().contains(hour) {
        figures[hour]
    } else {
        Seq::empty()
    }
}

/// The figures of several lists, one list after another.
pub open spec fn figures_of_lists(lists: Seq<Seq<HourlyDetailGroupAgg>>) -> Map<
    u64,
    Seq<HourlyDetailGroupAgg>,
>
    decreases lists.len(),
{
    if lists.len() == 0 {
        Map::empty()
    } else {
        report::with_aggs(figures_of_lists(lists.drop_last()), lists.last())
    }
}

proof fn lemma_with_aggs_at(
    figures: Map<u64, Seq<HourlyDetailGroupAgg>>,
    aggs: Seq<HourlyDetailGroupAgg>,
    hour: u64,
)
    ensures
        figures_at(report::with_aggs(figures, aggs), hour) == figures_at(figures, hour)
            + aggs.filter(of_hour(hour)),
        report::with_aggs(figures, aggs).dom().contains(hour) <==> (figures.dom().contains(hour)
            || aggs.filter(of_hour(hour)).len() > 0),
    decreases aggs.len(),
{
    reveal(Seq::filter);
    if aggs.len() > 0 {
        let rest = aggs.drop_last();
        lemma_with_aggs_at(figures, rest, hour);
        let before = report::with_aggs(figures, rest);
        if aggs.last().hour_timestamp == hour {
            assert(figures_at(before, hour).push(aggs.last()) =~= figures_at(figures, hour)
                + rest.filter(of_hour(hour)).push(aggs.last()));
        }
    } else {
        assert(figures_at(figures, hour) + aggs.filter(of_hour(hour)) =~= figures_at(figures, hour));
    }
}

/// No list but that at `s` has figures of the hour.
spec fn only_source(lists: Seq<Seq<HourlyDetailGroupAgg>>, s: int, hour: u64) -> bool {
    forall|i: int|
        0 <= i < lists.len() && i != s ==> (#[trigger] lists[i]).filter(of_hour(hour)).len() == 0
}

proof fn lemma_only_source(lists: Seq<Seq<HourlyDetailGroupAgg>>, s: int, hour: u64)
    requires
        only_source(lists, s, hour),
    ensures
        0 <= s < lists.len() ==> figures_at(figures_of_lists(lists), hour) == lists[s].filter(
            of_hour(hour),
        ),
        !(0 <= s < lists.len()) ==> figures_at(figures_of_lists(lists), hour).len() == 0,
        figures_of_lists(lists).dom().contains(hour) <==> figures_at(
            figures_of_lists(lists),
            hour,
        ).len() > 0,
    decreases lists.len(),
{
    if lists.len() > 0 {
        let rest = lists.drop_last();
        assert(only_source(rest, s, hour)) by {
            assert forall|i: int| 0 <= i < rest.len() && i != s implies (
            #[trigger] rest[i]).filter(of_hour(hour)).len() == 0 by {
                assert(lists[i].filter(of_hour(hour)).len() == 0);
            }
        }
        lemma_only_source(rest, s, hour);
        lemma_with_aggs_at(figures_of_lists(rest), lists.last(), hour);
        let before = figures_at(figures_of_lists(rest), hour);
        let added = lists.last().filter(of_hour(hour));
        if s == lists.len() - 1 {
            assert(before + added =~= added);
        } else {
            assert(lists[lists.len() - 1].filter(of_hour(hour)).len() == 0);
            assert(before + added =~= before);
        }
    }
}

proof fn lemma_no_rows_no_figures(
    log: Seq<ScanRow>,
    local_offset_secs: i64,
    total: spec_fn(Seq<u64>) -> u64,
    list: Seq<HourlyDetailGroupAgg>,
    part: spec_fn(ScanRow) -> bool,
    hour: u64,
)
    requires
        summary_of(list, log.filter(part), local_offset_secs, total),
        forall|k: int|
            0 <= k < log.len() && in_hour(hour, local_offset_secs)(#[trigger] log[k]) ==> !part(
                log[k],
            ),
    ensures
        list.filter(of_hour(hour)).len() == 0,
{
    let here = in_hour(hour, local_offset_secs);
    let kept = list.filter(of_hour(hour));
    law_summary_of_an_hour(list, log.filter(part), local_offset_secs, total, hour);
    let none = |r: ScanRow| part(r) && here(r);
    filters::lemma_filter_and(log, part, here, none);
    log.lemma_all_neg_filter_empty(none);
    if kept.len() > 0 {
        let rows = log.filter(part).filter(here);
        assert(rows_of(kept[0], rows, local_offset_secs).len() > 0);
        rows.lemma_filter_len(
            detail::in_group(local_offset_secs, kept[0].hour_timestamp, kept[0].domain_group@),
        );
    }
}

/// Each list sums up a part of the log. Where one of the parts holds the rows
/// of an hour that `whole` holds, and no other part a row of that hour, the
/// figures of that hour are those of `whole`.
proof fn lemma_parts(
    log: Seq<ScanRow>,
    local_offset_secs: i64,
    total: spec_fn(Seq<u64>) -> u64,
    lists: Seq<Seq<HourlyDetailGroupAgg>>,
    parts: Seq<spec_fn(ScanRow) -> bool>,
    whole: spec_fn(ScanRow) -> bool,
    hour: u64,
    s: int,
)
    requires
        lists.len() == parts.len(),
        0 <= s < lists.len(),
        forall|i: int|
            #![trigger lists[i]]
            0 <= i < lists.len() ==> summary_of(
                lists[i],
                log.filter(parts[i]),
                local_offset_secs,
                total,
            ),
        forall|k: int|
            0 <= k < log.len() && in_hour(hour, local_offset_secs)(#[trigger] log[k]) ==> parts[s](
                log[k],
            ) == whole(log[k]),
        forall|i: int, k: int|
            #![trigger parts[i], log[k]]
            0 <= i < parts.len() && i != s && 0 <= k < log.len() && in_hour(
                hour,
                local_offset_secs,
            )(log[k]) ==> !parts[i](log[k]),
    ensures
        summary_of(
            figures_at(figures_of_lists(lists), hour),
            log.filter(whole).filter(in_hour(hour, local_offset_secs)),
            local_offset_secs,
            total,
        ),
        figures_of_lists(lists).dom().contains(hour) <==> log.filter(whole).filter(
            in_hour(hour, local_offset_secs),
        ).len() > 0,
{
    let here = in_hour(hour, local_offset_secs);
    assert forall|i: int| 0 <= i < lists.len() && i != s implies (#[trigger] lists[i]).filter(
        of_hour(hour),
    ).len() == 0 by {
        lemma_no_rows_no_figures(log, local_offset_secs, total, lists[i], parts[i], hour);
    }
    assert(only_source(lists, s, hour));
    lemma_only_source(lists, s, hour);
    law_summary_of_an_hour(lists[s], log.filter(parts[s]), local_offset_secs, total, hour);
    let both = |r: ScanRow| whole(r) && here(r);
    filters::lemma_filter_and(log, parts[s], here, both);
    filters::lemma_filter_and(log, whole, here, both);
    let figures = figures_at(figures_of_lists(lists), hour);
    let rows = log.filter(whole).filter(here);
    if rows.len() > 0 {
        assert(is_counted(figures, rows[0], local_offset_secs));
    }
    if figures.len() > 0 {
        assert(rows_of(figures[0], rows, local_offset_secs).len() > 0);
        rows.lemma_filter_len(
            detail::in_group(
                local_offset_secs,
                figures[0].hour_timestamp,
                figures[0].domain_group@,
            ),
        );
    }
}

/// The rows of the log that a scan of the span gives; a scan ends before the
/// largest signed number.
pub open spec fn in_span(span: (u64, u64)) -> spec_fn(ScanRow) -> bool {
    |r: ScanRow|
        hourly::signed(span.0) <= r.timestamp && r.timestamp < span.1 && r.timestamp < i64::MAX
}

/// The rows of the log whose local hour is one of `hours`.
pub open spec fn in_hours(hours: Set<u64>, local_offset_secs: i64) -> spec_fn(ScanRow) -> bool {
    |r: ScanRow| hours.contains(detail::row_hour(r, local_offset_secs))
}

/// Each list sums up the scan of a span.
pub open spec fn scans_of(
    lists: Seq<Seq<HourlyDetailGroupAgg>>,
    spans: Seq<(u64, u64)>,
    log: Seq<ScanRow>,
    local_offset_secs: i64,
    total: spec_fn(Seq<u64>) -> u64,
) -> bool {
    &&& lists.len() == spans.len()
    &&& forall|i: int|
        0 <= i < lists.len() ==> summary_of(
            #[trigger] lists[i],
            log.filter(in_span(spans[i])),
            local_offset_secs,
            total,
        )
}

/// Where the figures of a report came from.
pub struct Sources {
    /// The hours that the table of summaries holds.
    pub kept: Set<u64>,
    /// The figures that were read from the table.
    pub stored: Seq<HourlyDetailGroupAgg>,
    /// The figures of the spans that are always scanned.
    pub live: Seq<Seq<HourlyDetailGroupAgg>>,
    /// The spans without figures in the table.
    pub missing_spans: Seq<(u64, u64)>,
    /// The figures of those spans.
    pub missing: Seq<Seq<HourlyDetailGroupAgg>>,
}

/// The spans of the window that are always scanned.
pub open spec fn live_spans(w: ReportWindow) -> Seq<(u64, u64)> {
    hourly::live_ranges(w.boundary_hour, w.current_hour, w.window_start).filter(window::not_empty())
}

/// The figures before the missing hours are scanned.
pub open spec fn first_figures(src: Sources) -> Map<u64, Seq<HourlyDetailGroupAgg>> {
    figures_of_lists(seq![src.stored] + src.live)
}

/// All figures of the report.
pub open spec fn all_figures(src: Sources) -> Map<u64, Seq<HourlyDetailGroupAgg>> {
    figures_of_lists(seq![src.stored] + src.live + src.missing)
}

/// The table holds finished hours of the window, each as the log has it, and
/// the scans are those that the window asks for.
pub open spec fn sources_of(
    src: Sources,
    w: ReportWindow,
    log: Seq<ScanRow>,
    local_offset_secs: i64,
    total: spec_fn(Seq<u64>) -> u64,
) -> bool {
    &&& forall|h: u64| #[trigger]
        src.kept.contains(h) ==> hourly::on_grid(w.stored_from, h as int) && h < w.current_hour
    &&& summary_of(
        src.stored,
        log.filter(in_hours(src.kept, local_offset_secs)),
        local_offset_secs,
        total,
    )
    &&& scans_of(src.live, live_spans(w), log, local_offset_secs, total)
    &&& scans_of(src.missing, src.missing_spans, log, local_offset_secs, total)
    &&& if w.stored_from < w.current_hour {
        hourly::are_missing_ranges(
            src.missing_spans,
            first_figures(src).dom(),
            w.stored_from,
            w.current_hour,
        )
    } else {
        src.missing_spans.len() == 0
    }
}

/// How the time of a row and its hour are related.
proof fn lemma_row_hour(r: ScanRow, local_offset_secs: i64)
    ensures
        ({
            let h = detail::row_hour(r, local_offset_secs);
            ||| r.timestamp >= 0 && h <= r.timestamp < h + HOURLY_DETAIL_HOUR_MS && h
                == hourly::hour_start_int(r.timestamp as u64, local_offset_secs)
            ||| r.timestamp >= 0 && h > i64::MAX && hourly::hour_start_int(
                r.timestamp as u64,
                local_offset_secs,
            ) < 0
            ||| r.timestamp < 0 && (h == 0 || h > i64::MAX)
        }),
{
}

proof fn lemma_hour_start_monotone(a: int, b: int, d: int)
    requires
        a <= b,
    ensures
        a - (a + d) % (HOURLY_DETAIL_HOUR_MS as int) <= b - (b + d) % (HOURLY_DETAIL_HOUR_MS as int),
{
}

proof fn lemma_aligned_step(a: int, b: int, d: int)
    requires
        (a + d) % (HOURLY_DETAIL_HOUR_MS as int) == 0,
        (b + d) % (HOURLY_DETAIL_HOUR_MS as int) == 0,
    ensures
        a < b ==> a + HOURLY_DETAIL_HOUR_MS <= b,
        (b - a) % (HOURLY_DETAIL_HOUR_MS as int) == 0,
{
}

/// What holds of a window with a finished hour in it.
spec fn window_is_sound(w: ReportWindow, local_offset_secs: i64) -> bool {
    let d = local_offset_secs * 1000;
    &&& w.boundary_hour <= w.window_start < w.boundary_hour + HOURLY_DETAIL_HOUR_MS
    &&& w.boundary_hour + HOURLY_DETAIL_HOUR_MS <= w.current_hour <= i64::MAX
    &&& w.stored_from == w.boundary_hour + HOURLY_DETAIL_HOUR_MS
    &&& (w.boundary_hour + d) % (HOURLY_DETAIL_HOUR_MS as int) == 0
    &&& (w.current_hour + d) % (HOURLY_DETAIL_HOUR_MS as int) == 0
    &&& hourly::on_grid(w.stored_from, w.current_hour as int)
    &&& live_spans(w) == seq![
        (w.window_start, (w.boundary_hour + HOURLY_DETAIL_HOUR_MS) as u64),
        (w.current_hour, u64::MAX),
    ]
}

proof fn lemma_window_is_sound(now_ms: u64, local_offset_secs: i64, start: u64)
    requires
        hourly::hour_start_int(now_ms, local_offset_secs) >= 0,
        hourly::hour_start_int(start, local_offset_secs) >= 0,
        hourly::hour_start(start, local_offset_secs) < hourly::hour_start(
            now_ms,
            local_offset_secs,
        ),
    ensures
        window_is_sound(window::window_from(now_ms, local_offset_secs, start), local_offset_secs),
{
    let w = window::window_from(now_ms, local_offset_secs, start);
    let d = local_offset_secs * 1000;
    hourly::law_hour_start_is_the_local_hour(start, local_offset_secs);
    hourly::law_hour_start_is_the_local_hour(now_ms, local_offset_secs);
    lemma_aligned_step(w.boundary_hour as int, w.current_hour as int, d);
    lemma_aligned_step(w.stored_from as int, w.current_hour as int, d);
    let spans = hourly::live_ranges(w.boundary_hour, w.current_hour, w.window_start);
    reveal_with_fuel(Seq::filter, 3);
    assert(spans.drop_last().drop_last() =~= Seq::<(u64, u64)>::empty());
    assert(spans.filter(window::not_empty()) =~= spans);
}

/// Which rows of the log each list of the report sums up.
spec fn parts_of(src: Sources, w: ReportWindow, local_offset_secs: i64) -> Seq<
    spec_fn(ScanRow) -> bool,
> {
    seq![in_hours(src.kept, local_offset_secs)] + Seq::new(
        src.live.len(),
        |i: int| in_span(live_spans(w)[i]),
    ) + Seq::new(src.missing.len(), |i: int| in_span(src.missing_spans[i]))
}

spec fn lists_of(src: Sources) -> Seq<Seq<HourlyDetailGroupAgg>> {
    seq![src.stored] + src.live + src.missing
}

proof fn lemma_lists_sum_up_parts(
    src: Sources,
    w: ReportWindow,
    log: Seq<ScanRow>,
    local_offset_secs: i64,
    total: spec_fn(Seq<u64>) -> u64,
)
    requires
        sources_of(src, w, log, local_offset_secs, total),
    ensures
        lists_of(src).len() == parts_of(src, w, local_offset_secs).len(),
        forall|i: int|
            #![trigger lists_of(src)[i]]
            0 <= i < lists_of(src).len() ==> summary_of(
                lists_of(src)[i],
                log.filter(parts_of(src, w, local_offset_secs)[i]),
                local_offset_secs,
                total,
            ),
{
    let lists = lists_of(src);
    let parts = parts_of(src, w, local_offset_secs);
    assert forall|i: int|
        #![trigger lists[i]]
        0 <= i < lists.len() implies summary_of(
        lists[i],
        log.filter(parts[i]),
        local_offset_secs,
        total,
    ) by {
        if i == 0 {
        } else if i < 1 + src.live.len() {
            assert(lists[i] == src.live[i - 1]);
        } else {
            assert(lists[i] == src.missing[i - 1 - src.live.len()]);
        }
    }
}

/// A kept hour in which the log has a row has figures before any hour is found missing.
proof fn lemma_kept_hour_is_present(
    src: Sources,
    w: ReportWindow,
    log: Seq<ScanRow>,
    local_offset_secs: i64,
    total: spec_fn(Seq<u64>) -> u64,
    k: int,
)
    requires
        sources_of(src, w, log, local_offset_secs, total),
        0 <= k < log.len(),
        src.kept.contains(detail::row_hour(log[k], local_offset_secs)),
    ensures
        first_figures(src).dom().contains(detail::row_hour(log[k], local_offset_secs)),
{
    let hour = detail::row_hour(log[k], local_offset_secs);
    let kept = in_hours(src.kept, local_offset_secs);
    filters::lemma_filter_members(log, kept);
    let rows = log.filter(kept);
    let m = choose|m: int| 0 <= m < rows.len() && rows[m] == log[k];
    assert(is_counted(src.stored, rows[m], local_offset_secs));
    let j = choose|j: int|
        0 <= j < src.stored.len() && stands_for(#[trigger] src.stored[j], rows[m], local_offset_secs);
    filters::lemma_filter_members(src.stored, of_hour(hour));
    assert(src.stored.filter(of_hour(hour)).contains(src.stored[j]));
    lemma_lists_hour(seq![src.stored] + src.live, 0, hour);
}

/// An hour of which some list has figures is an hour of the report.
proof fn lemma_lists_hour(lists: Seq<Seq<HourlyDetailGroupAgg>>, s: int, hour: u64)
    requires
        0 <= s < lists.len(),
        lists[s].filter(of_hour(hour)).len() > 0,
    ensures
        figures_of_lists(lists).dom().contains(hour),
    decreases lists.len(),
{
    let rest = lists.drop_last();
    lemma_with_aggs_at(figures_of_lists(rest), lists.last(), hour);
    if s < lists.len() - 1 {
        assert(rest[s] == lists[s]);
        lemma_lists_hour(rest, s, hour);
    }
}

/// A finished hour that is not kept has no figures before it is found missing.
proof fn lemma_other_hour_is_missing(
    src: Sources,
    w: ReportWindow,
    log: Seq<ScanRow>,
    local_offset_secs: i64,
    total: spec_fn(Seq<u64>) -> u64,
    hour: u64,
)
    requires
        window_is_sound(w, local_offset_secs),
        sources_of(src, w, log, local_offset_secs, total),
        w.stored_from <= hour < w.current_hour,
        !src.kept.contains(hour),
    ensures
        !first_figures(src).dom().contains(hour),
{
    let lists = seq![src.stored] + src.live;
    assert forall|i: int| 0 <= i < lists.len() && i != -1 implies (#[trigger] lists[i]).filter(
        of_hour(hour),
    ).len() == 0 by {
        let part = if i == 0 {
            in_hours(src.kept, local_offset_secs)
        } else {
            in_span(live_spans(w)[i - 1])
        };
        if i > 0 {
            assert(lists[i] == src.live[i - 1]);
        }
        assert forall|k: int|
            0 <= k < log.len() && in_hour(hour, local_offset_secs)(#[trigger] log[k]) implies !part(
            log[k],
        ) by {
            lemma_row_hour(log[k], local_offset_secs);
            lemma_aligned_step(
                hour as int,
                w.current_hour as int,
                local_offset_secs * 1000,
            );
        }
        lemma_no_rows_no_figures(log, local_offset_secs, total, lists[i], part, hour);
    }
    assert(only_source(lists, -1, hour));
    lemma_only_source(lists, -1, hour);
}

/// The list that the figures of an hour come from.
spec fn source_of(src: Sources, w: ReportWindow, hour: u64) -> int {
    if w.boundary_hour >= w.current_hour || hour <= w.boundary_hour {
        1
    } else if hour >= w.current_hour {
        2
    } else if src.kept.contains(hour) || !hourly::covered(src.missing_spans, hour as int) {
        0
    } else {
        3 + choose|i: int|
            0 <= i < src.missing_spans.len() && hourly::within(
                hour as int,
                #[trigger] src.missing_spans[i],
            )
    }
}

/// A row at an hour of a window without a finished hour.
proof fn lemma_row_of_short_window(
    src: Sources,
    w: ReportWindow,
    log: Seq<ScanRow>,
    local_offset_secs: i64,
    total: spec_fn(Seq<u64>) -> u64,
    k: int,
    i: int,
)
    requires
        w.boundary_hour >= w.current_hour,
        w.stored_from == w.current_hour,
        w.window_start < u64::MAX,
        sources_of(src, w, log, local_offset_secs, total),
        0 <= k < log.len(),
        0 <= i < parts_of(src, w, local_offset_secs).len(),
    ensures
        live_spans(w) == seq![(w.window_start, u64::MAX)],
        parts_of(src, w, local_offset_secs)[i](log[k]) == (i == 1 && in_span(
            (w.window_start, u64::MAX),
        )(log[k])),
{
    let spans = hourly::live_ranges(w.boundary_hour, w.current_hour, w.window_start);
    reveal_with_fuel(Seq::filter, 2);
    assert(spans.drop_last() =~= Seq::<(u64, u64)>::empty());
    assert(spans.filter(window::not_empty()) =~= spans);
    assert(src.live.len() == 1);
    assert(src.missing.len() == 0);
    if i == 0 {
        let hour = detail::row_hour(log[k], local_offset_secs);
        if src.kept.contains(hour) {
            assert(hourly::on_grid(w.stored_from, hour as int));
        }
    }
}

/// A row at an hour of a window with a finished hour lies in the part that the
/// figures of its hour come from, where the window holds it, and in no other.
proof fn lemma_row_of_window(
    src: Sources,
    w: ReportWindow,
    log: Seq<ScanRow>,
    local_offset_secs: i64,
    total: spec_fn(Seq<u64>) -> u64,
    k: int,
    i: int,
)
    requires
        window_is_sound(w, local_offset_secs),
        sources_of(src, w, log, local_offset_secs, total),
        0 <= k < log.len(),
        0 <= i < parts_of(src, w, local_offset_secs).len(),
    ensures
        ({
            let s = source_of(src, w, detail::row_hour(log[k], local_offset_secs));
            &&& 0 <= s < parts_of(src, w, local_offset_secs).len()
            &&& parts_of(src, w, local_offset_secs)[i](log[k]) == (i == s && in_span(
                (w.window_start, u64::MAX),
            )(log[k]))
        }),
{
    let r = log[k];
    let hour = detail::row_hour(r, local_offset_secs);
    let d = local_offset_secs * 1000;
    let parts = parts_of(src, w, local_offset_secs);
    lemma_row_hour(r, local_offset_secs);
    assert(src.live.len() == 2);
    let genuine = r.timestamp >= 0 && hour == hourly::hour_start_int(
        r.timestamp as u64,
        local_offset_secs,
    );
    if genuine {
        lemma_aligned_step(hour as int, w.boundary_hour as int, d);
        lemma_aligned_step(w.boundary_hour as int, hour as int, d);
        lemma_aligned_step(hour as int, w.current_hour as int, d);
        lemma_aligned_step(w.stored_from as int, hour as int, d);
    } else if r.timestamp >= 0 {
        if r.timestamp >= w.boundary_hour {
            lemma_hour_start_monotone(w.boundary_hour as int, r.timestamp as int, d);
        }
    }
    let inner = w.boundary_hour < hour < w.current_hour;
    if inner {
        assert(hourly::on_grid(w.stored_from, hour as int));
        assert(hourly::covered(src.missing_spans, hour as int) <==> !first_figures(
            src,
        ).dom().contains(hour));
        if src.kept.contains(hour) {
            lemma_kept_hour_is_present(src, w, log, local_offset_secs, total, k);
        } else {
            lemma_other_hour_is_missing(src, w, log, local_offset_secs, total, hour);
        }
    }
    if i == 0 {
        assert(parts[i](r) == src.kept.contains(hour));
    } else if i < 3 {
        assert(parts[i](r) == in_span(live_spans(w)[i - 1])(r));
    } else {
        let span = src.missing_spans[i - 3];
        assert(parts[i](r) == in_span(span)(r));
        assert(hourly::on_grid(w.stored_from, span.0 as int));
        assert(hourly::on_grid(w.stored_from, span.1 as int));
        assert(span.1 <= w.current_hour);
        if genuine && inner {
            lemma_grid_span(w.stored_from, span, hour, r.timestamp as int);
            if hourly::within(hour as int, span) {
                assert(hourly::covered(src.missing_spans, hour as int));
                let c = choose|c: int|
                    0 <= c < src.missing_spans.len() && hourly::within(
                        hour as int,
                        #[trigger] src.missing_spans[c],
                    );
                if c < i - 3 {
                    assert(src.missing_spans[c].1 < src.missing_spans[i - 3].0);
                } else if i - 3 < c {
                    assert(src.missing_spans[i - 3].1 < src.missing_spans[c].0);
                }
            }
        }
    }
}

/// A span of full hours holds an instant exactly where it holds its hour.
proof fn lemma_grid_span(first: u64, span: (u64, u64), hour: u64, t: int)
    requires
        hourly::on_grid(first, span.0 as int),
        hourly::on_grid(first, span.1 as int),
        hourly::on_grid(first, hour as int),
        hour <= t < hour + HOURLY_DETAIL_HOUR_MS,
    ensures
        hourly::within(t, span) <==> hourly::within(hour as int, span),
{
}

/// The times of a window, for which its spans are told apart: they are signed
/// numbers, and where the present hour began before 1970, so did the hour in
/// which the window begins.
pub open spec fn times_in_range(now_ms: u64, local_offset_secs: i64, start: u64) -> bool {
    &&& now_ms <= i64::MAX
    &&& start <= i64::MAX
    &&& hourly::hour_start_int(now_ms, local_offset_secs) >= 0 || hourly::hour_start_int(
        start,
        local_offset_secs,
    ) < 0
}

/// Where the window has a finished hour, no hour of it began before 1970.
proof fn lemma_hours_after_1970(now_ms: u64, local_offset_secs: i64, start: u64)
    requires
        times_in_range(now_ms, local_offset_secs, start),
        hourly::hour_start(start, local_offset_secs) < hourly::hour_start(
            now_ms,
            local_offset_secs,
        ),
    ensures
        hourly::hour_start_int(now_ms, local_offset_secs) >= 0,
        hourly::hour_start_int(start, local_offset_secs) >= 0,
{
    let n = hourly::hour_start_int(now_ms, local_offset_secs);
    let s = hourly::hour_start_int(start, local_offset_secs);
    let d = local_offset_secs * 1000;
    lemma_aligned_step(n, s, d);
    lemma_aligned_step(s, n, d);
}

/// For every hour the report has what one scan of the whole window would give:
/// the figures of each group that has a row in that hour and in the window,
/// each once, and nothing for an hour without such a row. It does not matter
/// which finished hours the table of summaries holds.
pub proof fn law_report_equals_one_scan(
    now_ms: u64,
    local_offset_secs: i64,
    start: u64,
    src: Sources,
    log: Seq<ScanRow>,
    total: spec_fn(Seq<u64>) -> u64,
    hour: u64,
)
    requires
        times_in_range(now_ms, local_offset_secs, start),
        sources_of(
            src,
            window::window_from(now_ms, local_offset_secs, start),
            log,
            local_offset_secs,
            total,
        ),
    ensures
        summary_of(
            figures_at(all_figures(src), hour),
            log.filter(in_span((start, u64::MAX))).filter(in_hour(hour, local_offset_secs)),
            local_offset_secs,
            total,
        ),
        all_figures(src).dom().contains(hour) <==> log.filter(in_span((start, u64::MAX))).filter(
            in_hour(hour, local_offset_secs),
        ).len() > 0,
{
    let w = window::window_from(now_ms, local_offset_secs, start);
    let parts = parts_of(src, w, local_offset_secs);
    let lists = lists_of(src);
    let whole = in_span((start, u64::MAX));
    let here = in_hour(hour, local_offset_secs);
    lemma_lists_sum_up_parts(src, w, log, local_offset_secs, total);
    if w.boundary_hour < w.current_hour {
        lemma_hours_after_1970(now_ms, local_offset_secs, start);
        lemma_window_is_sound(now_ms, local_offset_secs, start);
        let occurs = exists|k: int| 0 <= k < log.len() && here(#[trigger] log[k]);
        let s = if occurs {
            source_of(src, w, hour)
        } else {
            0
        };
        if occurs {
            let k = choose|k: int| 0 <= k < log.len() && here(#[trigger] log[k]);
            lemma_row_of_window(src, w, log, local_offset_secs, total, k, 0);
        }
        assert forall|k: int| 0 <= k < log.len() && here(#[trigger] log[k]) implies parts[s](
            log[k],
        ) == whole(log[k]) by {
            lemma_row_of_window(src, w, log, local_offset_secs, total, k, s);
        }
        assert forall|i: int, k: int|
            #![trigger parts[i], log[k]]
            0 <= i < parts.len() && i != s && 0 <= k < log.len() && here(log[k]) implies !parts[i](
            log[k],
        ) by {
            lemma_row_of_window(src, w, log, local_offset_secs, total, k, i);
        }
        lemma_parts(log, local_offset_secs, total, lists, parts, whole, hour, s);
    } else {
        assert(src.live.len() == 1) by {
            let spans = hourly::live_ranges(w.boundary_hour, w.current_hour, w.window_start);
            reveal_with_fuel(Seq::filter, 2);
            assert(spans.drop_last() =~= Seq::<(u64, u64)>::empty());
            assert(spans.filter(window::not_empty()) =~= spans);
        }
        assert forall|k: int| 0 <= k < log.len() && here(#[trigger] log[k]) implies parts[1](
            log[k],
        ) == whole(log[k]) by {
            lemma_row_of_short_window(src, w, log, local_offset_secs, total, k, 1);
        }
        assert forall|i: int, k: int|
            #![trigger parts[i], log[k]]
            0 <= i < parts.len() && i != 1 && 0 <= k < log.len() && here(log[k]) implies !parts[i](
            log[k],
        ) by {
            lemma_row_of_short_window(src, w, log, local_offset_secs, total, k, i);
        }
        lemma_parts(log, local_offset_secs, total, lists, parts, whole, hour, 1);
    }
}

/// The numbers of rows of all groups add up to the number of counted rows.
proof fn lemma_sum_over_groups(
    aggs: Seq<HourlyDetailGroupAgg>,
    rows: Seq<ScanRow>,
    local_offset_secs: i64,
    picked: spec_fn(ScanRow) -> bool,
    figure: spec_fn(HourlyDetailGroupAgg) -> nat,
)
    requires
        forall|i: int, j: int|
            #![trigger aggs[i], aggs[j]]
            0 <= i < j < aggs.len() ==> !same_group(aggs[i], aggs[j]),
        forall|j: int|
            0 <= j < aggs.len() ==> figure(#[trigger] aggs[j]) == rows_of(
                aggs[j],
                rows,
                local_offset_secs,
            ).filter(picked).len(),
    ensures
        report::sum(aggs, figure) == rows.filter(
            |r: ScanRow| picked(r) && is_counted(aggs, r, local_offset_secs),
        ).len(),
    decreases aggs.len(),
{
    let all = |r: ScanRow| picked(r) && is_counted(aggs, r, local_offset_secs);
    if aggs.len() == 0 {
        rows.lemma_all_neg_filter_empty(all);
    } else {
        let rest = aggs.drop_last();
        let last = aggs.last();
        assert(aggs[aggs.len() - 1] == last);
        assert forall|i: int, j: int|
            #![trigger rest[i], rest[j]]
            0 <= i < j < rest.len() implies !same_group(rest[i], rest[j]) by {
            assert(!same_group(aggs[i], aggs[j]));
        }
        assert forall|j: int| 0 <= j < rest.len() implies figure(#[trigger] rest[j]) == rows_of(
            rest[j],
            rows,
            local_offset_secs,
        ).filter(picked).len() by {
            assert(rest[j] == aggs[j]);
        }
        lemma_sum_over_groups(rest, rows, local_offset_secs, picked, figure);
        let before = |r: ScanRow| picked(r) && is_counted(rest, r, local_offset_secs);
        let here = |r: ScanRow| picked(r) && stands_for(last, r, local_offset_secs);
        assert forall|i: int| 0 <= i < rows.len() implies (all(#[trigger] rows[i]) <==> before(
            rows[i],
        ) || here(rows[i])) && !(before(rows[i]) && here(rows[i])) by {
            let r = rows[i];
            if is_counted(aggs, r, local_offset_secs) {
                let j = choose|j: int|
                    0 <= j < aggs.len() && stands_for(#[trigger] aggs[j], r, local_offset_secs);
                if j < rest.len() {
                    assert(stands_for(rest[j], r, local_offset_secs));
                }
            }
            if is_counted(rest, r, local_offset_secs) {
                let j = choose|j: int|
                    0 <= j < rest.len() && stands_for(#[trigger] rest[j], r, local_offset_secs);
                assert(stands_for(aggs[j], r, local_offset_secs));
                assert(!same_group(aggs[j], aggs[aggs.len() - 1]));
            }
            if stands_for(last, r, local_offset_secs) {
                assert(stands_for(aggs[aggs.len() - 1], r, local_offset_secs));
            }
        }
        filters::lemma_filter_split(rows, before, here, all);
        filters::lemma_filter_and(
            rows,
            detail::in_group(local_offset_secs, last.hour_timestamp, last.domain_group@),
            picked,
            here,
        );
    }
}

/// The number of a summary's rows that are picked, summed up over its groups.
pub proof fn lemma_summary_sum(
    aggs: Seq<HourlyDetailGroupAgg>,
    rows: Seq<ScanRow>,
    local_offset_secs: i64,
    total: spec_fn(Seq<u64>) -> u64,
    picked: spec_fn(ScanRow) -> bool,
    figure: spec_fn(HourlyDetailGroupAgg) -> nat,
)
    requires
        summary_of(aggs, rows, local_offset_secs, total),
        forall|j: int|
            0 <= j < aggs.len() ==> figure(#[trigger] aggs[j]) == rows_of(
                aggs[j],
                rows,
                local_offset_secs,
            ).filter(picked).len(),
    ensures
        report::sum(aggs, figure) == rows.filter(picked).len(),
{
    lemma_sum_over_groups(aggs, rows, local_offset_secs, picked, figure);
    let all = |r: ScanRow| picked(r) && is_counted(aggs, r, local_offset_secs);
    filters::lemma_filter_same(rows, all, picked);
}

/// The counts of each hour of the report are the numbers of rows that the log
/// has in that hour of the window.
pub proof fn law_report_counts_the_log(
    now_ms: u64,
    local_offset_secs: i64,
    start: u64,
    src: Sources,
    log: Seq<ScanRow>,
    total: spec_fn(Seq<u64>) -> u64,
    items: Seq<report::HourlyDetailItem>,
    i: int,
)
    requires
        times_in_range(now_ms, local_offset_secs, start),
        sources_of(
            src,
            window::window_from(now_ms, local_offset_secs, start),
            log,
            local_offset_secs,
            total,
        ),
        log.len() <= u32::MAX,
        report::is_report(items, all_figures(src)),
        0 <= i < items.len(),
    ensures
        ({
            let rows = log.filter(in_span((start, u64::MAX))).filter(
                in_hour(items[i].hour_timestamp, local_offset_secs),
            );
            &&& items[i].query_count == rows.len()
            &&& items[i].cached_count == rows.filter(detail::cached()).len()
            &&& items[i].blocked_count == rows.filter(detail::blocked()).len()
        }),
{
    let hour = items[i].hour_timestamp;
    let here = in_hour(hour, local_offset_secs);
    let seen = log.filter(in_span((start, u64::MAX)));
    let rows = seen.filter(here);
    law_report_equals_one_scan(now_ms, local_offset_secs, start, src, log, total, hour);
    let figures = all_figures(src)[hour];
    assert(figures == figures_at(all_figures(src), hour));
    assert(report::reports(items[i], hour, detail::in_order(figures)));
    log.lemma_filter_len(in_span((start, u64::MAX)));
    seen.lemma_filter_len(here);
    rows.lemma_filter_len(detail::cached());
    rows.lemma_filter_len(detail::blocked());
    let any = |r: ScanRow| true;
    assert forall|j: int| 0 <= j < figures.len() implies report::queries()(#[trigger] figures[j])
        == rows_of(figures[j], rows, local_offset_secs).filter(any).len()
        && report::cached_queries()(figures[j]) == rows_of(
        figures[j],
        rows,
        local_offset_secs,
    ).filter(detail::cached()).len() && report::blocked_queries()(figures[j]) == rows_of(
        figures[j],
        rows,
        local_offset_secs,
    ).filter(detail::blocked()).len() by {
        let part = rows_of(figures[j], rows, local_offset_secs);
        assert(figures_of(figures[j], part, total));
        rows.lemma_filter_len(
            detail::in_group(
                local_offset_secs,
                figures[j].hour_timestamp,
                figures[j].domain_group@,
            ),
        );
        part.lemma_filter_len(detail::cached());
        part.lemma_filter_len(detail::blocked());
        filters::lemma_filter_all(part, any);
    }
    lemma_summary_sum(figures, rows, local_offset_secs, total, any, report::queries());
    lemma_summary_sum(
        figures,
        rows,
        local_offset_secs,
        total,
        detail::cached(),
        report::cached_queries(),
    );
    lemma_summary_sum(
        figures,
        rows,
        local_offset_secs,
        total,
        detail::blocked(),
        report::blocked_queries(),
    );
    filters::lemma_filter_all(rows, any);
    report::lemma_sum_in_order(figures, report::queries());
    report::lemma_sum_in_order(figures, report::cached_queries());
    report::lemma_sum_in_order(figures, report::blocked_queries());
}

/// The full hours of a span.
pub open spec fn hours_between(start: u64, end: u64) -> Set<u64> {
    Set::new(|h: u64| hourly::on_grid(start, h as int) && h < end)
}

/// A summary of a span of full hours of local time sums up the log of exactly
/// those hours: what a refresh writes is what a report takes the table for.
pub proof fn law_summary_of_full_hours(
    log: Seq<ScanRow>,
    local_offset_secs: i64,
    total: spec_fn(Seq<u64>) -> u64,
    aggs: Seq<HourlyDetailGroupAgg>,
    start: u64,
    end: u64,
)
    requires
        0 < start <= end <= i64::MAX,
        (start + local_offset_secs * 1000) % (HOURLY_DETAIL_HOUR_MS as int) == 0,
        (end + local_offset_secs * 1000) % (HOURLY_DETAIL_HOUR_MS as int) == 0,
        summary_of(aggs, log.filter(in_span((start, end))), local_offset_secs, total),
    ensures
        summary_of(
            aggs,
            log.filter(in_hours(hours_between(start, end), local_offset_secs)),
            local_offset_secs,
            total,
        ),
{
    let span = in_span((start, end));
    let hours = in_hours(hours_between(start, end), local_offset_secs);
    let d = local_offset_secs * 1000;
    assert forall|k: int| 0 <= k < log.len() implies span(#[trigger] log[k]) == hours(log[k]) by {
        let r = log[k];
        let hour = detail::row_hour(r, local_offset_secs);
        lemma_row_hour(r, local_offset_secs);
        if r.timestamp >= 0 {
            let n = hourly::hour_start_int(r.timestamp as u64, local_offset_secs);
            lemma_aligned_step(start as int, n, d);
            lemma_aligned_step(n, start as int, d);
            lemma_aligned_step(n, end as int, d);
        }
    }
    filters::lemma_filter_same(log, span, hours);
}

} // verus!
