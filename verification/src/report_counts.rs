//! What the numbers of an hourly report count, row by row of the log.

use vstd::prelude::*;

use crate::completeness;
use crate::detail;
use crate::detail::{HourlyDetailGroupAgg, ScanRow};
use crate::filters;
use crate::hourly;
use crate::model::DomainGroupHourlyStat;
use crate::report;
use crate::report::HourlyDetailItem;
use crate::report_run;
use crate::report_run::RunModel;
use crate::same_report;
use crate::text;
use crate::window;

verus! {

/// The flag of a row is set.
pub open spec fn flagged(flag: Option<i64>) -> bool {
    match flag {
        Some(v) => v != 0,
        None => false,
    }
}

/// The instant lies in the hour of local time that starts at `hour`.
pub open spec fn in_local_hour(t: int, hour: u64, local_offset_secs: i64) -> bool {
    &&& hour <= t < hour + 3_600_000
    &&& (hour + local_offset_secs * 1000) % 3_600_000 == 0
}

/// The rows of an hour within the window that begins at `start`.
pub open spec fn of_hour(start: int, hour: u64, local_offset_secs: i64) -> spec_fn(ScanRow) -> bool {
    |r: ScanRow|
        start <= r.timestamp && r.timestamp < i64::MAX && in_local_hour(
            r.timestamp as int,
            hour,
            local_offset_secs,
        )
}

/// The rows of an hour and a group within the window.
pub open spec fn of_group(
    start: int,
    hour: u64,
    local_offset_secs: i64,
    group: Seq<char>,
) -> spec_fn(ScanRow) -> bool {
    |r: ScanRow| of_hour(start, hour, local_offset_secs)(r) && r.domain_group@ == group
}

/// Those of the rows whose answer was cached, or was not.
pub open spec fn answered(rows: spec_fn(ScanRow) -> bool, from_cache: bool) -> spec_fn(
    ScanRow,
) -> bool {
    |r: ScanRow| rows(r) && flagged(r.is_cached) == from_cache
}

/// Those of the rows that were blocked.
pub open spec fn stopped(rows: spec_fn(ScanRow) -> bool) -> spec_fn(ScanRow) -> bool {
    |r: ScanRow| rows(r) && flagged(r.is_blocked)
}

/// The times of the rows, in the order of the log; zero where a row has none.
pub open spec fn times_of(log: Seq<ScanRow>, rows: spec_fn(ScanRow) -> bool) -> Seq<u64> {
    Seq::new(
        log.filter(rows).len(),
        |i: int|
            match log.filter(rows)[i].query_time {
                Some(t) => t,
                None => 0u64,
            },
    )
}

/// The instant at which a report on the last `past_hours` hours begins: the full
/// second so many hours back, or the oldest row where that is later.
pub open spec fn begins(now_ms: u64, past_hours: u32, oldest: i64) -> int {
    let asked = now_ms - now_ms % 1000 - 3_600_000 * past_hours;
    if asked > oldest {
        asked
    } else {
        oldest as int
    }
}

/// The item counts the rows of its hour.
pub open spec fn counts_its_hour(
    item: HourlyDetailItem,
    log: Seq<ScanRow>,
    start: int,
    local_offset_secs: i64,
) -> bool {
    let rows = of_hour(start, item.hour_timestamp, local_offset_secs);
    &&& item.query_count == log.filter(rows).len()
    &&& item.cached_count == log.filter(answered(rows, true)).len()
    &&& item.blocked_count == log.filter(stopped(rows)).len()
    &&& item.cached_time_count == log.filter(answered(rows, true)).len()
    &&& item.uncached_time_count == log.filter(answered(rows, false)).len()
}

/// The `k`-th group of the item counts the rows of its hour and its group.
pub open spec fn counts_its_group(
    item: HourlyDetailItem,
    k: int,
    log: Seq<ScanRow>,
    start: int,
    local_offset_secs: i64,
    total: spec_fn(Seq<u64>) -> u64,
) -> bool {
    let group = item.groups@[k];
    let rows = of_group(start, item.hour_timestamp, local_offset_secs, group.domain_group@);
    &&& group.query_count == log.filter(rows).len()
    &&& group.query_count > 0
    &&& group.cached_count == log.filter(answered(rows, true)).len()
    &&& item.cached_time_sums@[k] == total(times_of(log, answered(rows, true)))
    &&& item.uncached_time_sums@[k] == total(times_of(log, answered(rows, false)))
}

/// The item has a group of that name.
pub open spec fn has_group(item: HourlyDetailItem, name: Seq<char>) -> bool {
    exists|k: int| 0 <= k < item.groups@.len() && (#[trigger] item.groups@[k]).domain_group@ == name
}

/// The groups of the item are those of the rows of its hour, sorted by name.
pub open spec fn has_the_groups(
    item: HourlyDetailItem,
    log: Seq<ScanRow>,
    start: int,
    local_offset_secs: i64,
) -> bool {
    &&& item.cached_time_sums@.len() == item.groups@.len()
    &&& item.uncached_time_sums@.len() == item.groups@.len()
    &&& forall|k: int, l: int|
        #![trigger item.groups@[k], item.groups@[l]]
        0 <= k < l < item.groups@.len() ==> {
            &&& text::not_after(item.groups@[k].domain_group@, item.groups@[l].domain_group@)
            &&& item.groups@[k].domain_group@ != item.groups@[l].domain_group@
        }
    &&& forall|j: int|
        0 <= j < log.len() && of_hour(start, item.hour_timestamp, local_offset_secs)(
            #[trigger] log[j],
        ) ==> has_group(item, log[j].domain_group@)
}

/// The rows of the window and the hour, picked one way or the other.
proof fn lemma_rows_of_hour(
    log: Seq<ScanRow>,
    start: u64,
    hour: u64,
    local_offset_secs: i64,
)
    requires
        0 < start <= i64::MAX,
        start >= (start + local_offset_secs * 1000) % 3_600_000,
    ensures
        report_run::window_rows(log, start, hour, local_offset_secs) == log.filter(
            of_hour(start as int, hour, local_offset_secs),
        ),
{
    let span = completeness::in_span((start, u64::MAX));
    let here = completeness::in_hour(hour, local_offset_secs);
    let both = of_hour(start as int, hour, local_offset_secs);
    assert forall|j: int| 0 <= j < log.len() implies (both(#[trigger] log[j]) <==> span(log[j])
        && here(log[j])) by {
        let r = log[j];
        let t = r.timestamp as int;
        let d = local_offset_secs * 1000;
        if start <= t {
            assert(detail::row_instant(r) == t);
            assert(hourly::signed(t as u64) == t);
            assert(t - (t + d) % 3_600_000 >= start - (start + d) % 3_600_000);
        }
    }
    filters::lemma_filter_and(log, span, here, both);
}

/// The rows of one of the groups.
proof fn lemma_rows_of_group(
    log: Seq<ScanRow>,
    start: u64,
    hour: u64,
    local_offset_secs: i64,
    a: HourlyDetailGroupAgg,
)
    requires
        0 < start <= i64::MAX,
        start >= (start + local_offset_secs * 1000) % 3_600_000,
        completeness::rows_of(
            a,
            report_run::window_rows(log, start, hour, local_offset_secs),
            local_offset_secs,
        ).len() > 0,
    ensures
        a.hour_timestamp == hour,
        completeness::rows_of(
            a,
            report_run::window_rows(log, start, hour, local_offset_secs),
            local_offset_secs,
        ) == log.filter(of_group(start as int, hour, local_offset_secs, a.domain_group@)),
{
    let rows = report_run::window_rows(log, start, hour, local_offset_secs);
    let seen = log.filter(completeness::in_span((start, u64::MAX)));
    let group = detail::in_group(local_offset_secs, a.hour_timestamp, a.domain_group@);
    filters::lemma_filter_members(rows, group);
    filters::lemma_filter_members(seen, completeness::in_hour(hour, local_offset_secs));
    let part = completeness::rows_of(a, rows, local_offset_secs);
    assert(rows.contains(part[0]) && group(part[0]));
    let k = choose|k: int| 0 <= k < rows.len() && rows[k] == part[0];
    assert(completeness::in_hour(hour, local_offset_secs)(rows[k]));
    lemma_rows_of_hour(log, start, hour, local_offset_secs);
    let named = |r: ScanRow| r.domain_group@ == a.domain_group@;
    assert forall|j: int| 0 <= j < rows.len() implies group(#[trigger] rows[j]) == named(
        rows[j],
    ) by {
        assert(completeness::in_hour(hour, local_offset_secs)(rows[j]));
    }
    filters::lemma_filter_same(rows, group, named);
    filters::lemma_filter_and(
        log,
        of_hour(start as int, hour, local_offset_secs),
        named,
        of_group(start as int, hour, local_offset_secs, a.domain_group@),
    );
}

/// What is picked from rows that are picked already.
proof fn lemma_picked(log: Seq<ScanRow>, rows: spec_fn(ScanRow) -> bool)
    ensures
        log.filter(rows).filter(detail::cached()) == log.filter(answered(rows, true)),
        log.filter(rows).filter(detail::uncached()) == log.filter(answered(rows, false)),
        log.filter(rows).filter(detail::blocked()) == log.filter(stopped(rows)),
        detail::times(log.filter(rows)) == times_of(log, rows),
        log.filter(rows).len() <= log.len(),
        log.filter(answered(rows, true)).len() <= log.len(),
        log.filter(answered(rows, false)).len() <= log.len(),
        log.filter(stopped(rows)).len() <= log.len(),
{
    filters::lemma_filter_and(log, rows, detail::cached(), answered(rows, true));
    filters::lemma_filter_and(log, rows, detail::uncached(), answered(rows, false));
    filters::lemma_filter_and(log, rows, detail::blocked(), stopped(rows));
    assert(detail::times(log.filter(rows)) =~= times_of(log, rows));
    log.lemma_filter_len(rows);
    log.lemma_filter_len(answered(rows, true));
    log.lemma_filter_len(answered(rows, false));
    log.lemma_filter_len(stopped(rows));
}

/// The figures of a list that is sorted are those of the list.
proof fn lemma_sorted_figures(g: Seq<HourlyDetailGroupAgg>, k: int) -> (j: int)
    requires
        0 <= k < detail::in_order(g).len(),
    ensures
        0 <= j < g.len(),
        g[j] == detail::in_order(g)[k],
{
    broadcast use vstd::seq_lib::group_to_multiset_ensures;

    let s = detail::in_order(g);
    detail::law_in_order_is_a_stable_sort(g, 0, Seq::empty());
    assert(s.contains(s[k]));
    assert(s.to_multiset().contains(s[k]));
    assert(g.contains(s[k]));
    choose|j: int| 0 <= j < g.len() && g[j] == s[k]
}

proof fn lemma_group_counts(
    item: HourlyDetailItem,
    g: Seq<HourlyDetailGroupAgg>,
    log: Seq<ScanRow>,
    start: u64,
    local_offset_secs: i64,
    total: spec_fn(Seq<u64>) -> u64,
    k: int,
)
    requires
        0 < start <= i64::MAX,
        start >= (start + local_offset_secs * 1000) % 3_600_000,
        log.len() <= u32::MAX,
        completeness::summary_of(
            g,
            report_run::window_rows(log, start, item.hour_timestamp, local_offset_secs),
            local_offset_secs,
            total,
        ),
        report::reports(item, item.hour_timestamp, detail::in_order(g)),
        0 <= k < item.groups@.len(),
    ensures
        counts_its_group(item, k, log, start as int, local_offset_secs, total),
{
    let hour = item.hour_timestamp;
    let rows = report_run::window_rows(log, start, hour, local_offset_secs);
    let s = detail::in_order(g);
    let j = lemma_sorted_figures(g, k);
    let a = g[j];
    let name = a.domain_group@;
    assert(completeness::figures_of(
        g[j],
        completeness::rows_of(g[j], rows, local_offset_secs),
        total,
    ));
    lemma_rows_of_group(log, start, hour, local_offset_secs, a);
    let part = of_group(start as int, hour, local_offset_secs, name);
    lemma_picked(log, part);
    lemma_picked(log, answered(part, true));
    lemma_picked(log, answered(part, false));
    assert(item.groups@[k].domain_group@ == s[k].domain_group@);
}

proof fn lemma_hour_counts(
    item: HourlyDetailItem,
    g: Seq<HourlyDetailGroupAgg>,
    log: Seq<ScanRow>,
    start: u64,
    local_offset_secs: i64,
    total: spec_fn(Seq<u64>) -> u64,
)
    requires
        0 < start <= i64::MAX,
        start >= (start + local_offset_secs * 1000) % 3_600_000,
        log.len() <= u32::MAX,
        completeness::summary_of(
            g,
            report_run::window_rows(log, start, item.hour_timestamp, local_offset_secs),
            local_offset_secs,
            total,
        ),
        report::reports(item, item.hour_timestamp, detail::in_order(g)),
    ensures
        counts_its_hour(item, log, start as int, local_offset_secs),
{
    let hour = item.hour_timestamp;
    let here = of_hour(start as int, hour, local_offset_secs);
    let rows = report_run::window_rows(log, start, hour, local_offset_secs);
    let any = |r: ScanRow| true;
    lemma_rows_of_hour(log, start, hour, local_offset_secs);
    lemma_picked(log, here);
    assert forall|j: int| 0 <= j < g.len() implies {
        let part = completeness::rows_of(#[trigger] g[j], rows, local_offset_secs);
        &&& report::queries()(g[j]) == part.filter(any).len()
        &&& report::cached_queries()(g[j]) == part.filter(detail::cached()).len()
        &&& report::blocked_queries()(g[j]) == part.filter(detail::blocked()).len()
        &&& report::cached_times()(g[j]) == part.filter(detail::cached()).len()
        &&& report::uncached_times()(g[j]) == part.filter(detail::uncached()).len()
    } by {
        let part = completeness::rows_of(g[j], rows, local_offset_secs);
        assert(completeness::figures_of(g[j], part, total));
        rows.lemma_filter_len(
            detail::in_group(local_offset_secs, g[j].hour_timestamp, g[j].domain_group@),
        );
        part.lemma_filter_len(detail::cached());
        part.lemma_filter_len(detail::blocked());
        filters::lemma_filter_all(part, any);
    }
    completeness::lemma_summary_sum(g, rows, local_offset_secs, total, any, report::queries());
    completeness::lemma_summary_sum(
        g,
        rows,
        local_offset_secs,
        total,
        detail::cached(),
        report::cached_queries(),
    );
    completeness::lemma_summary_sum(
        g,
        rows,
        local_offset_secs,
        total,
        detail::blocked(),
        report::blocked_queries(),
    );
    completeness::lemma_summary_sum(
        g,
        rows,
        local_offset_secs,
        total,
        detail::cached(),
        report::cached_times(),
    );
    completeness::lemma_summary_sum(
        g,
        rows,
        local_offset_secs,
        total,
        detail::uncached(),
        report::uncached_times(),
    );
    filters::lemma_filter_all(rows, any);
    report::lemma_sum_in_order(g, report::queries());
    report::lemma_sum_in_order(g, report::cached_queries());
    report::lemma_sum_in_order(g, report::blocked_queries());
    report::lemma_sum_in_order(g, report::cached_times());
    report::lemma_sum_in_order(g, report::uncached_times());
}

proof fn lemma_hour_groups(
    item: HourlyDetailItem,
    g: Seq<HourlyDetailGroupAgg>,
    log: Seq<ScanRow>,
    start: u64,
    local_offset_secs: i64,
    total: spec_fn(Seq<u64>) -> u64,
)
    requires
        0 < start <= i64::MAX,
        start >= (start + local_offset_secs * 1000) % 3_600_000,
        completeness::summary_of(
            g,
            report_run::window_rows(log, start, item.hour_timestamp, local_offset_secs),
            local_offset_secs,
            total,
        ),
        report::reports(item, item.hour_timestamp, detail::in_order(g)),
    ensures
        has_the_groups(item, log, start as int, local_offset_secs),
{
    broadcast use vstd::seq_lib::group_to_multiset_ensures;

    let hour = item.hour_timestamp;
    let here = of_hour(start as int, hour, local_offset_secs);
    let rows = report_run::window_rows(log, start, hour, local_offset_secs);
    let s = detail::in_order(g);
    lemma_rows_of_hour(log, start, hour, local_offset_secs);
    same_report::lemma_in_order_is_strict(g);
    assert forall|k: int, l: int|
        #![trigger item.groups@[k], item.groups@[l]]
        0 <= k < l < item.groups@.len() implies {
        &&& text::not_after(item.groups@[k].domain_group@, item.groups@[l].domain_group@)
        &&& item.groups@[k].domain_group@ != item.groups@[l].domain_group@
    } by {
        let i = lemma_sorted_figures(g, k);
        let j = lemma_sorted_figures(g, l);
        assert(completeness::rows_of(g[i], rows, local_offset_secs).len() > 0);
        assert(completeness::rows_of(g[j], rows, local_offset_secs).len() > 0);
        lemma_rows_of_group(log, start, hour, local_offset_secs, g[i]);
        lemma_rows_of_group(log, start, hour, local_offset_secs, g[j]);
        same_report::lemma_strictly_sorted_pair(s, k, l);
        assert(item.groups@[k].domain_group@ == s[k].domain_group@);
        assert(item.groups@[l].domain_group@ == s[l].domain_group@);
    }
    assert forall|j: int| 0 <= j < log.len() && here(#[trigger] log[j]) implies has_group(
        item,
        log[j].domain_group@,
    ) by {
        filters::lemma_filter_members(log, here);
        assert(rows.contains(log[j]));
        let i = choose|i: int| 0 <= i < rows.len() && rows[i] == log[j];
        assert(completeness::is_counted(g, rows[i], local_offset_secs));
        let n = choose|n: int|
            0 <= n < g.len() && completeness::stands_for(
                #[trigger] g[n],
                rows[i],
                local_offset_secs,
            );
        detail::law_in_order_is_a_stable_sort(g, 0, Seq::empty());
        assert(g.contains(g[n]));
        assert(g.to_multiset().contains(g[n]));
        assert(s.contains(g[n]));
        let k = choose|k: int| 0 <= k < s.len() && s[k] == g[n];
        assert(item.groups@[k].domain_group@ == s[k].domain_group@);
    }
}

/// The numbers of a report are numbers of rows of the log: those of an item
/// count the rows of its hour within the window, and those of its groups the
/// rows of the hour with that group; the cached ones are those whose flag is
/// set. Every group of such a row is there, and each once.
pub proof fn law_report_counts_rows(
    m: RunModel,
    kept: Set<u64>,
    log: Seq<ScanRow>,
    now_ms: u64,
    local_offset_secs: i64,
    past_hours: u32,
    oldest: i64,
    total: spec_fn(Seq<u64>) -> u64,
    items: Seq<HourlyDetailItem>,
    i: int,
)
    requires
        same_report::is_run_of(
            m,
            kept,
            log,
            now_ms,
            local_offset_secs,
            past_hours,
            oldest,
            total,
        ),
        report::is_report(items, completeness::figures_of_lists(m.lists)),
        log.len() <= u32::MAX,
        begins(now_ms, past_hours, oldest) >= (begins(now_ms, past_hours, oldest)
            + local_offset_secs * 1000) % 3_600_000,
        0 <= i < items.len(),
    ensures
        ({
            let start = begins(now_ms, past_hours, oldest);
            &&& counts_its_hour(items[i], log, start, local_offset_secs)
            &&& has_the_groups(items[i], log, start, local_offset_secs)
            &&& forall|k: int|
                0 <= k < items[i].groups@.len() ==> #[trigger] counts_its_group(
                    items[i],
                    k,
                    log,
                    start,
                    local_offset_secs,
                    total,
                )
        }),
{
    let start = window::window_start(now_ms, past_hours, oldest);
    let item = items[i];
    same_report::law_report_is_the_log_by_hour_and_group(
        m,
        kept,
        log,
        now_ms,
        local_offset_secs,
        past_hours,
        oldest,
        total,
        items,
    );
    assert(start == begins(now_ms, past_hours, oldest));
    let rows = report_run::window_rows(log, start, item.hour_timestamp, local_offset_secs);
    assert(same_report::item_of_rows(items[i], rows, local_offset_secs, total));
    let g = choose|g: Seq<HourlyDetailGroupAgg>| #[trigger]
        completeness::summary_of(g, rows, local_offset_secs, total) && report::reports(
            item,
            item.hour_timestamp,
            detail::in_order(g),
        );
    lemma_hour_counts(item, g, log, start, local_offset_secs, total);
    lemma_hour_groups(item, g, log, start, local_offset_secs, total);
    assert forall|k: int| 0 <= k < items[i].groups@.len() implies #[trigger] counts_its_group(
        items[i],
        k,
        log,
        start as int,
        local_offset_secs,
        total,
    ) by {
        lemma_group_counts(item, g, log, start, local_offset_secs, total, k);
    }
}

/// A report has an item for exactly the hours of which the log has a row within
/// the window, the latest hour first.
pub proof fn law_report_has_the_hours_of_the_log(
    m: RunModel,
    kept: Set<u64>,
    log: Seq<ScanRow>,
    now_ms: u64,
    local_offset_secs: i64,
    past_hours: u32,
    oldest: i64,
    total: spec_fn(Seq<u64>) -> u64,
    items: Seq<HourlyDetailItem>,
)
    requires
        same_report::is_run_of(
            m,
            kept,
            log,
            now_ms,
            local_offset_secs,
            past_hours,
            oldest,
            total,
        ),
        report::is_report(items, completeness::figures_of_lists(m.lists)),
        begins(now_ms, past_hours, oldest) >= (begins(now_ms, past_hours, oldest)
            + local_offset_secs * 1000) % 3_600_000,
    ensures
        forall|i: int, j: int|
            #![trigger items[i], items[j]]
            0 <= i < j < items.len() ==> items[i].hour_timestamp > items[j].hour_timestamp,
        forall|hour: u64| #[trigger]
            same_report::has_item(items, hour) <==> exists|j: int|
                0 <= j < log.len() && of_hour(
                    begins(now_ms, past_hours, oldest),
                    hour,
                    local_offset_secs,
                )(#[trigger] log[j]),
{
    let start = window::window_start(now_ms, past_hours, oldest);
    same_report::law_report_is_the_log_by_hour_and_group(
        m,
        kept,
        log,
        now_ms,
        local_offset_secs,
        past_hours,
        oldest,
        total,
        items,
    );
    assert(start == begins(now_ms, past_hours, oldest));
    assert forall|hour: u64| #[trigger] same_report::has_item(items, hour) <==> exists|j: int|
        0 <= j < log.len() && of_hour(start as int, hour, local_offset_secs)(#[trigger] log[j]) by {
        let here = of_hour(start as int, hour, local_offset_secs);
        lemma_rows_of_hour(log, start, hour, local_offset_secs);
        filters::lemma_filter_members(log, here);
        let rows = log.filter(here);
        if rows.len() > 0 {
            assert(log.contains(rows[0]) && here(rows[0]));
            let j = choose|j: int| 0 <= j < log.len() && log[j] == rows[0];
            assert(here(log[j]));
        }
        if exists|j: int| 0 <= j < log.len() && here(#[trigger] log[j]) {
            let j = choose|j: int| 0 <= j < log.len() && here(#[trigger] log[j]);
            assert(rows.contains(log[j]));
        }
    }
}

/// What the groups count together.
pub open spec fn together(
    groups: Seq<DomainGroupHourlyStat>,
    count: spec_fn(DomainGroupHourlyStat) -> nat,
) -> nat
    decreases groups.len(),
{
    if groups.len() == 0 {
        0
    } else {
        together(groups.drop_last(), count) + count(groups.last())
    }
}

proof fn lemma_together(
    groups: Seq<DomainGroupHourlyStat>,
    g: Seq<HourlyDetailGroupAgg>,
    count: spec_fn(DomainGroupHourlyStat) -> nat,
    figure: spec_fn(HourlyDetailGroupAgg) -> nat,
)
    requires
        groups.len() == g.len(),
        forall|i: int| 0 <= i < g.len() ==> count(#[trigger] groups[i]) == figure(g[i]),
    ensures
        together(groups, count) == report::sum(g, figure),
    decreases g.len(),
{
    if g.len() > 0 {
        let rest = groups.drop_last();
        assert forall|i: int| 0 <= i < rest.len() implies count(#[trigger] rest[i]) == figure(
            g.drop_last()[i],
        ) by {
            assert(count(groups[i]) == figure(g[i]));
        }
        lemma_together(rest, g.drop_last(), count, figure);
        assert(count(groups[g.len() - 1]) == figure(g[g.len() - 1]));
    }
}

/// The groups of an item add up to the item, unless that is more than a 32-bit
/// number: then the item has the largest one.
pub proof fn law_groups_add_up_to_their_hour(
    items: Seq<HourlyDetailItem>,
    figures: Map<u64, Seq<HourlyDetailGroupAgg>>,
    i: int,
)
    requires
        report::is_report(items, figures),
        0 <= i < items.len(),
    ensures
        ({
            let queries = together(
                items[i].groups@,
                |s: DomainGroupHourlyStat| s.query_count as nat,
            );
            let cached = together(
                items[i].groups@,
                |s: DomainGroupHourlyStat| s.cached_count as nat,
            );
            &&& items[i].query_count == if queries <= 0xffff_ffff {
                queries as int
            } else {
                0xffff_ffff
            }
            &&& items[i].cached_count == if cached <= 0xffff_ffff {
                cached as int
            } else {
                0xffff_ffff
            }
        }),
{
    let item = items[i];
    let g = detail::in_order(figures[item.hour_timestamp]);
    assert(report::reports(items[i], item.hour_timestamp, g));
    lemma_together(
        item.groups@,
        g,
        |s: DomainGroupHourlyStat| s.query_count as nat,
        report::queries(),
    );
    lemma_together(
        item.groups@,
        g,
        |s: DomainGroupHourlyStat| s.cached_count as nat,
        report::cached_queries(),
    );
}

} // verus!
