//! Why the log alone decides on an hourly report: it has an item for exactly
//! the hours with a row in the window, and is the same whichever hours the
//! table of summaries holds.

use vstd::prelude::*;

use crate::completeness;
use crate::detail;
use crate::detail::{HourlyDetailGroupAgg, ScanRow};
use crate::filters;
use crate::report;
use crate::report::HourlyDetailItem;
use crate::report_run;
use crate::report_run::RunModel;
use crate::text;
use crate::window;

verus! {

/// Two figures are of the same hour and group, and say the same.
pub open spec fn same_figures(a: HourlyDetailGroupAgg, b: HourlyDetailGroupAgg) -> bool {
    &&& a.domain_group@ == b.domain_group@
    &&& a == (HourlyDetailGroupAgg { domain_group: a.domain_group, ..b })
}

/// Two lists say the same, one by one.
spec fn same_lists(x: Seq<HourlyDetailGroupAgg>, y: Seq<HourlyDetailGroupAgg>) -> bool {
    x.len() == y.len() && forall|i: int| 0 <= i < x.len() ==> same_figures(#[trigger] x[i], y[i])
}

/// Every element of one list says the same as some element of the other.
#[verifier::opaque]
spec fn within(x: Seq<HourlyDetailGroupAgg>, y: Seq<HourlyDetailGroupAgg>) -> bool {
    forall|i: int| 0 <= i < x.len() ==> occurs(#[trigger] x[i], y)
}

spec fn occurs(a: HourlyDetailGroupAgg, y: Seq<HourlyDetailGroupAgg>) -> bool {
    exists|j: int| 0 <= j < y.len() && same_figures(a, #[trigger] y[j])
}

/// The list is sorted, and no hour and group comes twice.
#[verifier::opaque]
pub open spec fn strictly_sorted(x: Seq<HourlyDetailGroupAgg>) -> bool {
    forall|i: int, j: int|
        #![trigger x[i], x[j]]
        0 <= i < j < x.len() ==> detail::agg_not_after(x[i], x[j]) && !completeness::same_group(
            x[i],
            x[j],
        )
}

proof fn lemma_order_is_strict(a: HourlyDetailGroupAgg, b: HourlyDetailGroupAgg)
    requires
        detail::agg_not_after(a, b),
        detail::agg_not_after(b, a),
    ensures
        completeness::same_group(a, b),
{
    text::lemma_not_after_antisymmetric(a.domain_group@, b.domain_group@);
}

/// The last elements of two strictly sorted lists with the same elements agree.
proof fn lemma_last_agree(x: Seq<HourlyDetailGroupAgg>, y: Seq<HourlyDetailGroupAgg>)
    requires
        strictly_sorted(x),
        strictly_sorted(y),
        within(x, y),
        within(y, x),
        x.len() > 0,
        y.len() > 0,
    ensures
        same_figures(x[x.len() - 1], y[y.len() - 1]),
{
    reveal(within);
    reveal(strictly_sorted);
    let a = x[x.len() - 1];
    let b = y[y.len() - 1];
    assert(occurs(a, y));
    assert(occurs(b, x));
    let j = choose|j: int| 0 <= j < y.len() && same_figures(a, #[trigger] y[j]);
    let i = choose|i: int| 0 <= i < x.len() && same_figures(b, #[trigger] x[i]);
    if j < y.len() - 1 && i < x.len() - 1 {
        assert(detail::agg_not_after(y[j], b) && !completeness::same_group(y[j], b));
        assert(detail::agg_not_after(x[i], a));
        assert(detail::agg_not_after(b, y[j]));
        lemma_order_is_strict(y[j], b);
    }
}

/// Without their last elements, which agree, the lists hold each other's elements.
proof fn lemma_rest_within(x: Seq<HourlyDetailGroupAgg>, y: Seq<HourlyDetailGroupAgg>)
    requires
        strictly_sorted(x),
        within(x, y),
        x.len() > 0,
        y.len() > 0,
        same_figures(x[x.len() - 1], y[y.len() - 1]),
    ensures
        within(x.drop_last(), y.drop_last()),
{
    reveal(within);
    reveal(strictly_sorted);
    let p = x.drop_last();
    let q = y.drop_last();
    assert forall|k: int| 0 <= k < p.len() implies occurs(#[trigger] p[k], q) by {
        assert(occurs(x[k], y));
        let m = choose|m: int| 0 <= m < y.len() && same_figures(x[k], #[trigger] y[m]);
        assert(!completeness::same_group(x[k], x[x.len() - 1]));
        assert(m < q.len());
        assert(same_figures(p[k], q[m]));
    }
}

proof fn lemma_rest_sorted(x: Seq<HourlyDetailGroupAgg>)
    requires
        strictly_sorted(x),
        x.len() > 0,
    ensures
        strictly_sorted(x.drop_last()),
{
    reveal(strictly_sorted);
    let p = x.drop_last();
    assert forall|k: int, l: int|
        #![trigger p[k], p[l]]
        0 <= k < l < p.len() implies detail::agg_not_after(p[k], p[l])
        && !completeness::same_group(p[k], p[l]) by {
        assert(detail::agg_not_after(x[k], x[l]) && !completeness::same_group(x[k], x[l]));
    }
}

proof fn lemma_within_is_empty(x: Seq<HourlyDetailGroupAgg>, y: Seq<HourlyDetailGroupAgg>)
    requires
        within(x, y),
        y.len() == 0,
    ensures
        x.len() == 0,
{
    reveal(within);
    if x.len() > 0 {
        assert(occurs(x[0], y));
    }
}

/// Two strictly sorted lists with the same elements are the same list.
proof fn lemma_sorted_lists_agree(x: Seq<HourlyDetailGroupAgg>, y: Seq<HourlyDetailGroupAgg>)
    requires
        strictly_sorted(x),
        strictly_sorted(y),
        within(x, y),
        within(y, x),
    ensures
        same_lists(x, y),
    decreases x.len(),
{
    if x.len() == 0 {
        lemma_within_is_empty(y, x);
    } else {
        if y.len() == 0 {
            lemma_within_is_empty(x, y);
        }
        lemma_last_agree(x, y);
        lemma_rest_within(x, y);
        lemma_rest_within(y, x);
        lemma_rest_sorted(x);
        lemma_rest_sorted(y);
        let p = x.drop_last();
        let q = y.drop_last();
        lemma_sorted_lists_agree(p, q);
        assert forall|k: int| 0 <= k < x.len() implies same_figures(#[trigger] x[k], y[k]) by {
            if k < p.len() {
                assert(same_figures(p[k], q[k]));
            }
        }
    }
}

/// A filter keeps at least two elements where two are picked.
proof fn lemma_two_picked(
    s: Seq<HourlyDetailGroupAgg>,
    f: spec_fn(HourlyDetailGroupAgg) -> bool,
    i: int,
    j: int,
)
    requires
        0 <= i < j < s.len(),
        f(s[i]),
        f(s[j]),
    ensures
        s.filter(f).len() >= 2,
{
    let a = s.take(j);
    let b = s.skip(j);
    assert(s =~= a + b);
    Seq::filter_distributes_over_add(a, b, f);
    a.lemma_filter_contains(f, i);
    b.lemma_filter_contains(f, 0);
    assert(a.filter(f).len() > 0);
    assert(b.filter(f).len() > 0);
}

pub proof fn lemma_strictly_sorted_pair(x: Seq<HourlyDetailGroupAgg>, i: int, j: int)
    requires
        strictly_sorted(x),
        0 <= i < j < x.len(),
    ensures
        detail::agg_not_after(x[i], x[j]),
        !completeness::same_group(x[i], x[j]),
{
    reveal(strictly_sorted);
}

/// Sorting a list without repeated groups repeats none.
pub proof fn lemma_in_order_is_strict(g: Seq<HourlyDetailGroupAgg>)
    requires
        forall|i: int, j: int|
            #![trigger g[i], g[j]]
            0 <= i < j < g.len() ==> !completeness::same_group(g[i], g[j]),
    ensures
        strictly_sorted(detail::in_order(g)),
{
    reveal(strictly_sorted);
    let s = detail::in_order(g);
    assert forall|i: int, j: int|
        #![trigger s[i], s[j]]
        0 <= i < j < s.len() implies detail::agg_not_after(s[i], s[j])
        && !completeness::same_group(s[i], s[j]) by {
        let hour = s[i].hour_timestamp;
        let group = s[i].domain_group@;
        let f = detail::of_group(hour, group);
        detail::law_in_order_is_a_stable_sort(g, hour, group);
        if completeness::same_group(s[i], s[j]) {
            lemma_two_picked(s, f, i, j);
            completeness::lemma_filter_distinct(g, f);
            let kept = g.filter(f);
            g.lemma_filter_pred(f, 0);
            g.lemma_filter_pred(f, 1);
            assert(!completeness::same_group(kept[0], kept[1]));
        }
    }
}

/// Two summaries of the same rows have the same elements.
proof fn lemma_summaries_within(
    g: Seq<HourlyDetailGroupAgg>,
    h: Seq<HourlyDetailGroupAgg>,
    rows: Seq<ScanRow>,
    local_offset_secs: i64,
    total: spec_fn(Seq<u64>) -> u64,
)
    requires
        completeness::summary_of(g, rows, local_offset_secs, total),
        completeness::summary_of(h, rows, local_offset_secs, total),
    ensures
        within(g, h),
{
    reveal(within);
    assert forall|i: int| 0 <= i < g.len() implies occurs(#[trigger] g[i], h) by {
        let a = g[i];
        let f = detail::in_group(local_offset_secs, a.hour_timestamp, a.domain_group@);
        let part = completeness::rows_of(a, rows, local_offset_secs);
        assert(completeness::figures_of(a, part, total) && part.len() > 0);
        rows.lemma_filter_pred(f, 0);
        filters::lemma_filter_members(rows, f);
        let k = choose|k: int| 0 <= k < rows.len() && rows[k] == part[0];
        assert(completeness::is_counted(h, rows[k], local_offset_secs));
        let j = choose|j: int|
            0 <= j < h.len() && completeness::stands_for(
                #[trigger] h[j],
                rows[k],
                local_offset_secs,
            );
        assert(completeness::figures_of(
            h[j],
            completeness::rows_of(h[j], rows, local_offset_secs),
            total,
        ));
        assert(same_figures(a, h[j]));
    }
}

/// Sorting keeps the elements.
proof fn lemma_within_in_order(g: Seq<HourlyDetailGroupAgg>, h: Seq<HourlyDetailGroupAgg>)
    requires
        within(g, h),
    ensures
        within(detail::in_order(g), detail::in_order(h)),
{
    reveal(within);
    broadcast use vstd::seq_lib::group_to_multiset_ensures;

    let x = detail::in_order(g);
    let y = detail::in_order(h);
    detail::law_in_order_is_a_stable_sort(g, 0, Seq::empty());
    detail::law_in_order_is_a_stable_sort(h, 0, Seq::empty());
    assert forall|i: int| 0 <= i < x.len() implies occurs(#[trigger] x[i], y) by {
        assert(x.contains(x[i]));
        assert(x.to_multiset().contains(x[i]));
        assert(g.contains(x[i]));
        let k = choose|k: int| 0 <= k < g.len() && g[k] == x[i];
        assert(occurs(g[k], h));
        let j = choose|j: int| 0 <= j < h.len() && same_figures(g[k], #[trigger] h[j]);
        assert(h.contains(h[j]));
        assert(h.to_multiset().contains(h[j]));
        assert(y.contains(h[j]));
        let l = choose|l: int| 0 <= l < y.len() && y[l] == h[j];
        assert(same_figures(x[i], y[l]));
    }
}

proof fn lemma_same_sum(
    x: Seq<HourlyDetailGroupAgg>,
    y: Seq<HourlyDetailGroupAgg>,
    figure: spec_fn(HourlyDetailGroupAgg) -> nat,
)
    requires
        x.len() == y.len(),
        forall|i: int| 0 <= i < x.len() ==> figure(#[trigger] x[i]) == figure(y[i]),
    ensures
        report::sum(x, figure) == report::sum(y, figure),
    decreases x.len(),
{
    if x.len() > 0 {
        let p = x.drop_last();
        let q = y.drop_last();
        assert forall|i: int| 0 <= i < p.len() implies figure(#[trigger] p[i]) == figure(q[i]) by {
            assert(figure(x[i]) == figure(y[i]));
        }
        lemma_same_sum(p, q, figure);
        assert(figure(x[x.len() - 1]) == figure(y[y.len() - 1]));
    }
}

/// Two items report the same.
pub open spec fn same_item(a: HourlyDetailItem, b: HourlyDetailItem) -> bool {
    &&& a.hour_timestamp == b.hour_timestamp
    &&& a.query_count == b.query_count
    &&& a.cached_count == b.cached_count
    &&& a.blocked_count == b.blocked_count
    &&& a.cached_time_sums@ == b.cached_time_sums@
    &&& a.cached_time_count == b.cached_time_count
    &&& a.uncached_time_sums@ == b.uncached_time_sums@
    &&& a.uncached_time_count == b.uncached_time_count
    &&& a.groups@.len() == b.groups@.len()
    &&& forall|i: int|
        0 <= i < a.groups@.len() ==> {
            &&& (#[trigger] a.groups@[i]).domain_group@ == b.groups@[i].domain_group@
            &&& a.groups@[i].query_count == b.groups@[i].query_count
            &&& a.groups@[i].cached_count == b.groups@[i].cached_count
        }
}

/// Two reports are the same, item by item.
pub open spec fn same_report(a: Seq<HourlyDetailItem>, b: Seq<HourlyDetailItem>) -> bool {
    a.len() == b.len() && forall|i: int| 0 <= i < a.len() ==> same_item(#[trigger] a[i], b[i])
}

proof fn lemma_same_item(
    a: HourlyDetailItem,
    b: HourlyDetailItem,
    hour: u64,
    x: Seq<HourlyDetailGroupAgg>,
    y: Seq<HourlyDetailGroupAgg>,
)
    requires
        same_lists(x, y),
        report::reports(a, hour, x),
        report::reports(b, hour, y),
    ensures
        same_item(a, b),
{
    assert forall|i: int| 0 <= i < x.len() implies {
        &&& report::queries()(#[trigger] x[i]) == report::queries()(y[i])
        &&& report::cached_queries()(x[i]) == report::cached_queries()(y[i])
        &&& report::blocked_queries()(x[i]) == report::blocked_queries()(y[i])
        &&& report::cached_times()(x[i]) == report::cached_times()(y[i])
        &&& report::uncached_times()(x[i]) == report::uncached_times()(y[i])
    } by {
        assert(same_figures(x[i], y[i]));
    }
    lemma_same_sum(x, y, report::queries());
    lemma_same_sum(x, y, report::cached_queries());
    lemma_same_sum(x, y, report::blocked_queries());
    lemma_same_sum(x, y, report::cached_times());
    lemma_same_sum(x, y, report::uncached_times());
    assert(a.cached_time_sums@ =~= b.cached_time_sums@) by {
        assert forall|i: int| 0 <= i < x.len() implies x[i].cached_time_sum
            == y[i].cached_time_sum by {
            assert(same_figures(x[i], y[i]));
        }
    }
    assert(a.uncached_time_sums@ =~= b.uncached_time_sums@) by {
        assert forall|i: int| 0 <= i < x.len() implies x[i].uncached_time_sum
            == y[i].uncached_time_sum by {
            assert(same_figures(x[i], y[i]));
        }
    }
    assert forall|i: int| 0 <= i < a.groups@.len() implies {
        &&& (#[trigger] a.groups@[i]).domain_group@ == b.groups@[i].domain_group@
        &&& a.groups@[i].query_count == b.groups@[i].query_count
        &&& a.groups@[i].cached_count == b.groups@[i].cached_count
    } by {
        assert(same_figures(x[i], y[i]));
        assert(b.groups@[i].domain_group@ == y[i].domain_group@);
    }
}

/// The report has an item of the hour.
pub open spec fn has_item(items: Seq<HourlyDetailItem>, hour: u64) -> bool {
    exists|i: int| 0 <= i < items.len() && (#[trigger] items[i]).hour_timestamp == hour
}

spec fn hours_fall(items: Seq<HourlyDetailItem>) -> bool {
    forall|i: int, j: int|
        #![trigger items[i], items[j]]
        0 <= i < j < items.len() ==> items[i].hour_timestamp > items[j].hour_timestamp
}

/// Two reports with items of the same hours have them at the same places.
proof fn lemma_same_hours(a: Seq<HourlyDetailItem>, b: Seq<HourlyDetailItem>)
    requires
        hours_fall(a),
        hours_fall(b),
        forall|hour: u64| #[trigger] has_item(a, hour) <==> has_item(b, hour),
    ensures
        a.len() == b.len(),
        forall|i: int|
            0 <= i < a.len() ==> (#[trigger] a[i]).hour_timestamp == b[i].hour_timestamp,
    decreases a.len(),
{
    if a.len() == 0 {
        if b.len() > 0 {
            assert(has_item(b, b[0].hour_timestamp));
            assert(has_item(a, b[0].hour_timestamp));
        }
    } else {
        let x = a[a.len() - 1].hour_timestamp;
        assert(has_item(a, x));
        assert(has_item(b, x));
        let j = choose|j: int| 0 <= j < b.len() && (#[trigger] b[j]).hour_timestamp == x;
        let y = b[b.len() - 1].hour_timestamp;
        assert(has_item(b, y));
        assert(has_item(a, y));
        let i = choose|i: int| 0 <= i < a.len() && (#[trigger] a[i]).hour_timestamp == y;
        assert(x == y) by {
            if j < b.len() - 1 {
                assert(b[j].hour_timestamp > b[b.len() - 1].hour_timestamp);
                if i < a.len() - 1 {
                    assert(a[i].hour_timestamp > a[a.len() - 1].hour_timestamp);
                }
            }
        }
        let p = a.drop_last();
        let q = b.drop_last();
        assert forall|k: int, l: int|
            #![trigger p[k], p[l]]
            0 <= k < l < p.len() implies p[k].hour_timestamp > p[l].hour_timestamp by {
            assert(a[k].hour_timestamp > a[l].hour_timestamp);
        }
        assert forall|k: int, l: int|
            #![trigger q[k], q[l]]
            0 <= k < l < q.len() implies q[k].hour_timestamp > q[l].hour_timestamp by {
            assert(b[k].hour_timestamp > b[l].hour_timestamp);
        }
        assert forall|hour: u64| #[trigger] has_item(p, hour) <==> has_item(q, hour) by {
            lemma_item_before_last(a, hour);
            lemma_item_before_last(b, hour);
        }
        lemma_same_hours(p, q);
        assert forall|k: int| 0 <= k < a.len() implies (#[trigger] a[k]).hour_timestamp
            == b[k].hour_timestamp by {
            if k < p.len() {
                assert(p[k].hour_timestamp == q[k].hour_timestamp);
            }
        }
    }
}

proof fn lemma_item_before_last(a: Seq<HourlyDetailItem>, hour: u64)
    requires
        hours_fall(a),
        a.len() > 0,
    ensures
        has_item(a.drop_last(), hour) <==> has_item(a, hour) && hour
            != a[a.len() - 1].hour_timestamp,
{
    let p = a.drop_last();
    if has_item(p, hour) {
        let k = choose|k: int| 0 <= k < p.len() && (#[trigger] p[k]).hour_timestamp == hour;
        assert(a[k].hour_timestamp > a[a.len() - 1].hour_timestamp);
    }
    if has_item(a, hour) && hour != a[a.len() - 1].hour_timestamp {
        let k = choose|k: int| 0 <= k < a.len() && (#[trigger] a[k]).hour_timestamp == hour;
        assert(p[k].hour_timestamp == hour);
    }
}

/// The item reports the rows: the figures of each group that has a row, each
/// once, sorted by the names of the groups.
pub open spec fn item_of_rows(
    item: HourlyDetailItem,
    rows: Seq<ScanRow>,
    local_offset_secs: i64,
    total: spec_fn(Seq<u64>) -> u64,
) -> bool {
    exists|g: Seq<HourlyDetailGroupAgg>| #[trigger]
        completeness::summary_of(g, rows, local_offset_secs, total) && report::reports(
            item,
            item.hour_timestamp,
            detail::in_order(g),
        )
}

/// The reads of a report on the last `past_hours` hours, which was carried out
/// to its end; `oldest` is the time of the oldest row of the log.
pub open spec fn is_run_of(
    m: RunModel,
    kept: Set<u64>,
    log: Seq<ScanRow>,
    now_ms: u64,
    local_offset_secs: i64,
    past_hours: u32,
    oldest: i64,
    total: spec_fn(Seq<u64>) -> u64,
) -> bool {
    &&& window::window_of(now_ms, local_offset_secs, past_hours, Some(oldest)) == Some(m.window)
    &&& completeness::times_in_range(now_ms, local_offset_secs, m.window.window_start)
    &&& report_run::is_faithful(m, kept, log, local_offset_secs, total)
}

/// A report has an item for exactly the hours in which the log has a row of the
/// window, and each item reports the rows of its hour. The window begins at
/// the full second that lies so many hours back, or at the oldest row.
pub proof fn law_report_is_the_log_by_hour_and_group(
    m: RunModel,
    kept: Set<u64>,
    log: Seq<ScanRow>,
    now_ms: u64,
    local_offset_secs: i64,
    past_hours: u32,
    oldest: i64,
    total: spec_fn(Seq<u64>) -> u64,
    items: Seq<HourlyDetailItem>,
)
    requires
        is_run_of(m, kept, log, now_ms, local_offset_secs, past_hours, oldest, total),
        report::is_report(items, completeness::figures_of_lists(m.lists)),
    ensures
        ({
            let start = window::window_start(now_ms, past_hours, oldest);
            &&& forall|hour: u64| #[trigger]
                has_item(items, hour) <==> report_run::window_rows(
                    log,
                    start,
                    hour,
                    local_offset_secs,
                ).len() > 0
            &&& forall|i: int|
                0 <= i < items.len() ==> item_of_rows(
                    #[trigger] items[i],
                    report_run::window_rows(
                        log,
                        start,
                        items[i].hour_timestamp,
                        local_offset_secs,
                    ),
                    local_offset_secs,
                    total,
                )
        }),
{
    let start = window::window_start(now_ms, past_hours, oldest);
    let figures = completeness::figures_of_lists(m.lists);
    assert(m.window.window_start == start);
    assert forall|hour: u64| #[trigger] has_item(items, hour) <==> report_run::window_rows(
        log,
        start,
        hour,
        local_offset_secs,
    ).len() > 0 by {
        report_run::law_finished_report_equals_one_scan(
            m,
            now_ms,
            local_offset_secs,
            kept,
            log,
            total,
            hour,
        );
        if has_item(items, hour) {
            let i = choose|i: int|
                0 <= i < items.len() && (#[trigger] items[i]).hour_timestamp == hour;
            assert(figures.dom().contains(items[i].hour_timestamp));
        }
    }
    assert forall|i: int| 0 <= i < items.len() implies item_of_rows(
        #[trigger] items[i],
        report_run::window_rows(log, start, items[i].hour_timestamp, local_offset_secs),
        local_offset_secs,
        total,
    ) by {
        let hour = items[i].hour_timestamp;
        report_run::law_finished_report_equals_one_scan(
            m,
            now_ms,
            local_offset_secs,
            kept,
            log,
            total,
            hour,
        );
        assert(figures.dom().contains(hour));
        assert(completeness::figures_at(figures, hour) == figures[hour]);
        assert(completeness::summary_of(
            figures[hour],
            report_run::window_rows(log, start, hour, local_offset_secs),
            local_offset_secs,
            total,
        ));
    }
}

/// Two items of the same hour that report the same rows are the same.
proof fn lemma_items_of_rows_agree(
    a: HourlyDetailItem,
    b: HourlyDetailItem,
    rows: Seq<ScanRow>,
    local_offset_secs: i64,
    total: spec_fn(Seq<u64>) -> u64,
)
    requires
        a.hour_timestamp == b.hour_timestamp,
        item_of_rows(a, rows, local_offset_secs, total),
        item_of_rows(b, rows, local_offset_secs, total),
    ensures
        same_item(a, b),
{
    let g = choose|g: Seq<HourlyDetailGroupAgg>| #[trigger]
        completeness::summary_of(g, rows, local_offset_secs, total) && report::reports(
            a,
            a.hour_timestamp,
            detail::in_order(g),
        );
    let h = choose|h: Seq<HourlyDetailGroupAgg>| #[trigger]
        completeness::summary_of(h, rows, local_offset_secs, total) && report::reports(
            b,
            b.hour_timestamp,
            detail::in_order(h),
        );
    lemma_summaries_within(g, h, rows, local_offset_secs, total);
    lemma_summaries_within(h, g, rows, local_offset_secs, total);
    lemma_within_in_order(g, h);
    lemma_within_in_order(h, g);
    lemma_in_order_is_strict(g);
    lemma_in_order_is_strict(h);
    lemma_sorted_lists_agree(detail::in_order(g), detail::in_order(h));
    lemma_same_item(a, b, a.hour_timestamp, detail::in_order(g), detail::in_order(h));
}

/// Two reports on the same log at the same time are the same, whichever
/// finished hours the table of summaries held for the one and the other: all,
/// some or none.
pub proof fn law_report_does_not_depend_on_the_table(
    m: RunModel,
    n: RunModel,
    kept_m: Set<u64>,
    kept_n: Set<u64>,
    log: Seq<ScanRow>,
    now_ms: u64,
    local_offset_secs: i64,
    past_hours: u32,
    oldest: i64,
    total: spec_fn(Seq<u64>) -> u64,
    items_m: Seq<HourlyDetailItem>,
    items_n: Seq<HourlyDetailItem>,
)
    requires
        is_run_of(m, kept_m, log, now_ms, local_offset_secs, past_hours, oldest, total),
        is_run_of(n, kept_n, log, now_ms, local_offset_secs, past_hours, oldest, total),
        report::is_report(items_m, completeness::figures_of_lists(m.lists)),
        report::is_report(items_n, completeness::figures_of_lists(n.lists)),
    ensures
        same_report(items_m, items_n),
{
    let start = window::window_start(now_ms, past_hours, oldest);
    law_report_is_the_log_by_hour_and_group(
        m,
        kept_m,
        log,
        now_ms,
        local_offset_secs,
        past_hours,
        oldest,
        total,
        items_m,
    );
    law_report_is_the_log_by_hour_and_group(
        n,
        kept_n,
        log,
        now_ms,
        local_offset_secs,
        past_hours,
        oldest,
        total,
        items_n,
    );
    assert forall|hour: u64| #[trigger] has_item(items_m, hour) <==> has_item(items_n, hour) by {
        let rows = report_run::window_rows(log, start, hour, local_offset_secs);
        assert(has_item(items_m, hour) <==> rows.len() > 0);
        assert(has_item(items_n, hour) <==> rows.len() > 0);
    }
    lemma_same_hours(items_m, items_n);
    assert forall|i: int| 0 <= i < items_m.len() implies same_item(
        #[trigger] items_m[i],
        items_n[i],
    ) by {
        let rows = report_run::window_rows(
            log,
            start,
            items_m[i].hour_timestamp,
            local_offset_secs,
        );
        assert(item_of_rows(items_m[i], rows, local_offset_secs, total));
        assert(items_m[i].hour_timestamp == items_n[i].hour_timestamp);
        assert(item_of_rows(items_n[i], rows, local_offset_secs, total));
        lemma_items_of_rows_agree(items_m[i], items_n[i], rows, local_offset_secs, total);
    }
}

/// A report without figures, as for an empty log, has no items.
pub proof fn law_empty_log_gives_an_empty_report(
    now_ms: u64,
    local_offset_secs: i64,
    past_hours: u32,
    items: Seq<HourlyDetailItem>,
)
    requires
        report::is_report(items, Map::empty()),
    ensures
        window::window_of(now_ms, local_offset_secs, past_hours, None) is None,
        items.len() == 0,
{
    if items.len() > 0 {
        assert(Map::<u64, Seq<HourlyDetailGroupAgg>>::empty().dom().contains(
            items[0].hour_timestamp,
        ));
    }
}

} // verus!
