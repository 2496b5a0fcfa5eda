//! Hourly figures by domain group: summing up the query log, and sorting the sums.
//!
//! Times are floating-point numbers and are carried as IEEE-754 bit patterns;
//! which times make up a sum, and in which order, is decided here.

use vstd::prelude::*;

use crate::filters;
use crate::hourly;
use crate::rows;
use crate::text;

verus! {

/// The figures of one hour and one domain group. Times are kept as a sum and a
/// number, so that a second summary of the same hour replaces the first.
#[derive(Debug, Clone)]
pub struct HourlyDetailGroupAgg {
    pub hour_timestamp: u64,
    pub domain_group: String,
    pub query_count: u64,
    pub cached_count: u64,
    pub blocked_count: u64,
    /// The sum of the times of cached answers, as a bit pattern.
    pub cached_time_sum: u64,
    pub cached_time_count: u64,
    /// The sum of the times of answers that were not cached, as a bit pattern.
    pub uncached_time_sum: u64,
    pub uncached_time_count: u64,
}

impl Default for HourlyDetailGroupAgg {
    fn default() -> (r: Self)
        ensures
            r.hour_timestamp == 0,
            r.domain_group@ == Seq::<char>::empty(),
            r.query_count == 0,
            r.cached_count == 0,
            r.blocked_count == 0,
            r.cached_time_sum == 0,
            r.cached_time_count == 0,
            r.uncached_time_sum == 0,
            r.uncached_time_count == 0,
    {
        HourlyDetailGroupAgg {
            hour_timestamp: 0,
            domain_group: String::new(),
            query_count: 0,
            cached_count: 0,
            blocked_count: 0,
            cached_time_sum: 0,
            cached_time_count: 0,
            uncached_time_sum: 0,
            uncached_time_count: 0,
        }
    }
}

/// The order of the figures: by hour, within an hour by the name of the group.
pub open spec fn agg_not_after(a: HourlyDetailGroupAgg, b: HourlyDetailGroupAgg) -> bool {
    a.hour_timestamp < b.hour_timestamp || (a.hour_timestamp == b.hour_timestamp
        && text::not_after(a.domain_group@, b.domain_group@))
}

/// Puts `a` behind every element that may stand before it.
pub open spec fn insert_agg(
    s: Seq<HourlyDetailGroupAgg>,
    a: HourlyDetailGroupAgg,
) -> Seq<HourlyDetailGroupAgg>
    decreases s.len(),
{
    if s.len() == 0 || agg_not_after(s.last(), a) {
        s.push(a)
    } else {
        insert_agg(s.drop_last(), a).push(s.last())
    }
}

/// The figures in order; those of the same hour and group stay as they came.
pub open spec fn in_order(s: Seq<HourlyDetailGroupAgg>) -> Seq<HourlyDetailGroupAgg>
    decreases s.len(),
{
    if s.len() == 0 {
        s
    } else {
        insert_agg(in_order(s.drop_last()), s.last())
    }
}

fn is_agg_not_after(a: &HourlyDetailGroupAgg, b: &HourlyDetailGroupAgg) -> (r: bool)
    ensures
        r == agg_not_after(*a, *b),
{
    a.hour_timestamp < b.hour_timestamp || (a.hour_timestamp == b.hour_timestamp
        && text::is_not_after(a.domain_group.as_str(), b.domain_group.as_str()))
}

/// Sorts figures by hour and group.
pub fn sort_aggs(v: Vec<HourlyDetailGroupAgg>) -> (r: Vec<HourlyDetailGroupAgg>)
    ensures
        r@ == in_order(v@),
{
    let ghost all = v@;
    let mut r: Vec<HourlyDetailGroupAgg> = Vec::new();
    for a in it: v
        invariant
            it.seq() == all,
            r@ == in_order(all.take(it.index() as int)),
    {
        assert(all.take(it.index() + 1).drop_last() =~= all.take(it.index() as int));
        let mut i: usize = r.len();
        assert(r@.take(i as int) =~= r@);
        assert(insert_agg(r@, a) =~= insert_agg(r@.take(i as int), a) + r@.skip(i as int));
        while i > 0 && !is_agg_not_after(&r[i - 1], &a)
            invariant
                i <= r@.len(),
                insert_agg(r@, a) == insert_agg(r@.take(i as int), a) + r@.skip(i as int),
            decreases i,
        {
            proof {
                let head = r@.take(i as int);
                assert(head.drop_last() =~= r@.take(i - 1));
                assert(insert_agg(head, a) + r@.skip(i as int) =~= insert_agg(r@.take(i - 1), a)
                    + r@.skip(i - 1));
            }
            i -= 1;
        }
        assert(insert_agg(r@.take(i as int), a) == r@.take(i as int).push(a));
        assert(r@.insert(i as int, a) =~= r@.take(i as int).push(a) + r@.skip(i as int));
        r.insert(i, a);
    }
    assert(all.take(all.len() as int) =~= all);
    r
}

/// One row of the query log, as far as hourly figures need it.
#[derive(Debug, Clone)]
pub struct ScanRow {
    pub timestamp: i64,
    pub domain_group: String,
    pub is_cached: Option<i64>,
    pub is_blocked: Option<i64>,
    /// The time that the answer took, as a bit pattern.
    pub query_time: Option<u64>,
}

/// The figures of one hour and one domain group, before the times are added up.
#[derive(Debug)]
pub struct HourlyDetailScan {
    pub hour_timestamp: u64,
    pub domain_group: String,
    pub query_count: u64,
    pub cached_count: u64,
    pub blocked_count: u64,
    /// The times of cached answers, in the order of the rows, as bit patterns.
    pub cached_times: Vec<u64>,
    /// The times of answers that were not cached, in the order of the rows, as bit patterns.
    pub uncached_times: Vec<u64>,
}

/// The instant of a row; an instant before 1970 counts as 1970.
pub open spec fn row_instant(r: ScanRow) -> u64 {
    if r.timestamp > 0 {
        r.timestamp as u64
    } else {
        0
    }
}

/// The local hour of a row.
pub open spec fn row_hour(r: ScanRow, local_offset_secs: i64) -> u64 {
    hourly::hour_start(row_instant(r), local_offset_secs)
}

/// A flag is set; a flag that is not there is not set.
pub open spec fn is_set(flag: Option<i64>) -> bool {
    flag matches Some(v) && v != 0
}

/// The time of a row; zero, whose bit pattern is 0, where there is none.
pub open spec fn row_time(r: ScanRow) -> u64 {
    match r.query_time {
        Some(t) => t,
        None => 0,
    }
}

/// The rows of one hour and one domain group.
pub open spec fn in_group(local_offset_secs: i64, hour: u64, group: Seq<char>) -> spec_fn(
    ScanRow,
) -> bool {
    |r: ScanRow| row_hour(r, local_offset_secs) == hour && r.domain_group@ == group
}

pub open spec fn cached() -> spec_fn(ScanRow) -> bool {
    |r: ScanRow| is_set(r.is_cached)
}

pub open spec fn uncached() -> spec_fn(ScanRow) -> bool {
    |r: ScanRow| !is_set(r.is_cached)
}

pub open spec fn blocked() -> spec_fn(ScanRow) -> bool {
    |r: ScanRow| is_set(r.is_blocked)
}

/// The times of the rows, in order.
pub open spec fn times(rows: Seq<ScanRow>) -> Seq<u64> {
    Seq::new(rows.len(), |i: int| row_time(rows[i]))
}

/// The figures are those of the rows.
pub open spec fn sums_up(a: HourlyDetailScan, rows: Seq<ScanRow>) -> bool {
    &&& a.query_count == rows.len()
    &&& a.cached_count == rows.filter(cached()).len()
    &&& a.blocked_count == rows.filter(blocked()).len()
    &&& a.cached_times@ == times(rows.filter(cached()))
    &&& a.uncached_times@ == times(rows.filter(uncached()))
}

/// The rows that the figures `a` stand for.
pub open spec fn rows_of(
    a: HourlyDetailScan,
    rows: Seq<ScanRow>,
    local_offset_secs: i64,
) -> Seq<ScanRow> {
    rows.filter(in_group(local_offset_secs, a.hour_timestamp, a.domain_group@))
}

/// The figures are those of the hour and the group of the row.
pub open spec fn stands_for(a: HourlyDetailScan, r: ScanRow, local_offset_secs: i64) -> bool {
    a.hour_timestamp == row_hour(r, local_offset_secs) && a.domain_group@ == r.domain_group@
}

/// No two figures are of the same hour and group.
pub open spec fn distinct_groups(aggs: Seq<HourlyDetailScan>) -> bool {
    forall|i: int, j: int|
        #![trigger aggs[i], aggs[j]]
        0 <= i < j < aggs.len() ==> !(aggs[i].hour_timestamp == aggs[j].hour_timestamp
            && aggs[i].domain_group@ == aggs[j].domain_group@)
}

/// The figures of every hour and group that occurs in the rows, each once.
pub open spec fn sums_up_all(
    aggs: Seq<HourlyDetailScan>,
    rows: Seq<ScanRow>,
    local_offset_secs: i64,
) -> bool {
    &&& distinct_groups(aggs)
    &&& forall|j: int|
        0 <= j < aggs.len() ==> sums_up(
            #[trigger] aggs[j],
            rows_of(aggs[j], rows, local_offset_secs),
        ) && rows_of(aggs[j], rows, local_offset_secs).len() > 0
    &&& forall|i: int|
        0 <= i < rows.len() ==> exists|j: int|
            0 <= j < aggs.len() && stands_for(
                #[trigger] aggs[j],
                #[trigger] rows[i],
                local_offset_secs,
            )
}

/// The number of queries in all figures together.
pub open spec fn total_queries(aggs: Seq<HourlyDetailScan>) -> nat
    decreases aggs.len(),
{
    if aggs.len() == 0 {
        0
    } else {
        total_queries(aggs.drop_last()) + aggs.last().query_count as nat
    }
}

/// The local hour of every row that could be read can be computed.
pub open spec fn scan_in_range(found: Seq<Option<ScanRow>>, local_offset_secs: i64) -> bool {
    forall|i: int|
        0 <= i < found.len() && (#[trigger] found[i]) is Some ==> hourly::hour_start_in_range(
            row_instant(found[i]->0),
            local_offset_secs,
        )
}

proof fn lemma_readable_in_range(found: Seq<Option<ScanRow>>, local_offset_secs: i64)
    requires
        scan_in_range(found, local_offset_secs),
    ensures
        forall|i: int|
            0 <= i < rows::readable(found).len() ==> hourly::hour_start_in_range(
                row_instant(#[trigger] rows::readable(found)[i]),
                local_offset_secs,
            ),
    decreases found.len(),
{
    if found.len() > 0 {
        let rest = found.drop_last();
        assert(scan_in_range(rest, local_offset_secs)) by {
            assert forall|i: int|
                0 <= i < rest.len() && (
                #[trigger] rest[i]) is Some implies hourly::hour_start_in_range(
                row_instant(rest[i]->0),
                local_offset_secs,
            ) by {
                assert(found[i] == rest[i]);
            }
        }
        lemma_readable_in_range(rest, local_offset_secs);
        assert(found[found.len() - 1] == found.last());
        assert forall|i: int| 0 <= i < rows::readable(found).len() implies hourly::hour_start_in_range(
            row_instant(#[trigger] rows::readable(found)[i]),
            local_offset_secs,
        ) by {
            if i < rows::readable(rest).len() {
                assert(rows::readable(found)[i] == rows::readable(rest)[i]);
            }
        }
    }
}

proof fn lemma_total_update(aggs: Seq<HourlyDetailScan>, i: int, a: HourlyDetailScan)
    requires
        0 <= i < aggs.len(),
        a.query_count == aggs[i].query_count + 1,
    ensures
        total_queries(aggs.update(i, a)) == total_queries(aggs) + 1,
    decreases aggs.len(),
{
    let new = aggs.update(i, a);
    if i == aggs.len() - 1 {
        assert(new.drop_last() =~= aggs.drop_last());
    } else {
        lemma_total_update(aggs.drop_last(), i, a);
        assert(new.drop_last() =~= aggs.drop_last().update(i, a));
    }
}

fn flag(v: Option<i64>) -> (r: bool)
    ensures
        r == is_set(v),
{
    match v {
        Some(v) => v != 0,
        None => false,
    }
}

fn instant(r: &ScanRow) -> (t: u64)
    ensures
        t == row_instant(*r),
{
    if r.timestamp > 0 {
        r.timestamp as u64
    } else {
        0
    }
}

fn count_row(a: &mut HourlyDetailScan, row: &ScanRow, Ghost(rows): Ghost<Seq<ScanRow>>)
    requires
        sums_up(*old(a), rows),
        rows.len() < u64::MAX,
    ensures
        sums_up(*final(a), rows.push(*row)),
        final(a).hour_timestamp == old(a).hour_timestamp,
        final(a).domain_group == old(a).domain_group,
        final(a).query_count == old(a).query_count + 1,
{
    proof {
        filters::lemma_filter_push(rows, *row, cached());
        filters::lemma_filter_push(rows, *row, uncached());
        filters::lemma_filter_push(rows, *row, blocked());
        rows.lemma_filter_len(cached());
        rows.lemma_filter_len(blocked());
    }
    let time: u64 = match row.query_time {
        Some(t) => t,
        None => 0,
    };
    a.query_count = a.query_count + 1;
    if flag(row.is_cached) {
        a.cached_count = a.cached_count + 1;
        a.cached_times.push(time);
        assert(a.cached_times@ =~= times(rows.push(*row).filter(cached())));
    } else {
        a.uncached_times.push(time);
        assert(a.uncached_times@ =~= times(rows.push(*row).filter(uncached())));
    }
    if flag(row.is_blocked) {
        a.blocked_count = a.blocked_count + 1;
    }
}

fn find_group(aggs: &Vec<HourlyDetailScan>, hour: u64, group: &String) -> (r: Option<usize>)
    ensures
        match r {
            Some(i) => i < aggs@.len() && aggs@[i as int].hour_timestamp == hour
                && aggs@[i as int].domain_group@ == group@,
            None => forall|i: int|
                0 <= i < aggs@.len() ==> !((#[trigger] aggs@[i]).hour_timestamp == hour
                    && aggs@[i].domain_group@ == group@),
        },
{
    let mut i: usize = 0;
    while i < aggs.len()
        invariant
            i <= aggs@.len(),
            forall|j: int|
                0 <= j < i ==> !((#[trigger] aggs@[j]).hour_timestamp == hour
                    && aggs@[j].domain_group@ == group@),
        decreases aggs@.len() - i,
    {
        if aggs[i].hour_timestamp == hour && aggs[i].domain_group == *group {
            return Some(i);
        }
        i += 1;
    }
    None
}

proof fn lemma_row_added(
    held: Seq<HourlyDetailScan>,
    new: Seq<HourlyDetailScan>,
    at: int,
    done: Seq<ScanRow>,
    row: ScanRow,
    local_offset_secs: i64,
)
    requires
        sums_up_all(held, done, local_offset_secs),
        held.len() <= new.len() <= held.len() + 1,
        at < held.len() ==> new.len() == held.len(),
        0 <= at < new.len(),
        forall|j: int| 0 <= j < new.len() && j != at ==> j < held.len() && #[trigger] new[j] == held[j],
        at < held.len() ==> held[at].hour_timestamp == new[at].hour_timestamp
            && held[at].domain_group@ == new[at].domain_group@,
        at >= held.len() ==> forall|j: int|
            0 <= j < held.len() ==> !stands_for(#[trigger] held[j], row, local_offset_secs),
        stands_for(new[at], row, local_offset_secs),
        sums_up(new[at], rows_of(new[at], done.push(row), local_offset_secs)),
    ensures
        sums_up_all(new, done.push(row), local_offset_secs),
{
    let now = done.push(row);
    assert(distinct_groups(new)) by {
        assert forall|i: int, j: int|
            #![trigger new[i], new[j]]
            0 <= i < j < new.len() implies !(new[i].hour_timestamp == new[j].hour_timestamp
            && new[i].domain_group@ == new[j].domain_group@) by {
            if i < held.len() && j < held.len() {
                assert(!(held[i].hour_timestamp == held[j].hour_timestamp && held[i].domain_group@
                    == held[j].domain_group@));
            } else {
                assert(!stands_for(held[i], row, local_offset_secs));
            }
        }
    }
    assert forall|j: int| 0 <= j < new.len() implies sums_up(
        #[trigger] new[j],
        rows_of(new[j], now, local_offset_secs),
    ) && rows_of(new[j], now, local_offset_secs).len() > 0 by {
        filters::lemma_filter_push(
            done,
            row,
            in_group(local_offset_secs, new[j].hour_timestamp, new[j].domain_group@),
        );
        if j != at {
            assert(sums_up(held[j], rows_of(held[j], done, local_offset_secs)));
            if at < held.len() {
                if j < at {
                    assert(!(held[j].hour_timestamp == held[at].hour_timestamp
                        && held[j].domain_group@ == held[at].domain_group@));
                } else {
                    assert(!(held[at].hour_timestamp == held[j].hour_timestamp
                        && held[at].domain_group@ == held[j].domain_group@));
                }
            } else {
                assert(!stands_for(held[j], row, local_offset_secs));
            }
        }
    }
    assert forall|k: int| 0 <= k < now.len() implies exists|j: int|
        0 <= j < new.len() && stands_for(#[trigger] new[j], #[trigger] now[k], local_offset_secs) by {
        if k < done.len() {
            assert(now[k] == done[k]);
            let j = choose|j: int|
                0 <= j < held.len() && stands_for(#[trigger] held[j], done[k], local_offset_secs);
            assert(stands_for(new[j], now[k], local_offset_secs));
        } else {
            assert(stands_for(new[at], now[k], local_offset_secs));
        }
    }
}

proof fn lemma_group_unseen(
    held: Seq<HourlyDetailScan>,
    done: Seq<ScanRow>,
    row: ScanRow,
    local_offset_secs: i64,
)
    requires
        sums_up_all(held, done, local_offset_secs),
        forall|j: int|
            0 <= j < held.len() ==> !stands_for(#[trigger] held[j], row, local_offset_secs),
    ensures
        done.filter(
            in_group(local_offset_secs, row_hour(row, local_offset_secs), row.domain_group@),
        ) == Seq::<ScanRow>::empty(),
{
    let fits = in_group(local_offset_secs, row_hour(row, local_offset_secs), row.domain_group@);
    assert forall|i: int| 0 <= i < done.len() implies !fits(#[trigger] done[i]) by {
        let j = choose|j: int|
            0 <= j < held.len() && stands_for(#[trigger] held[j], done[i], local_offset_secs);
        assert(!stands_for(held[j], row, local_offset_secs));
    }
    done.lemma_all_neg_filter_empty(fits);
    assert(done.filter(fits) =~= Seq::<ScanRow>::empty());
}

fn add_row(
    aggs: &mut Vec<HourlyDetailScan>,
    row: &ScanRow,
    local_offset_secs: i64,
    Ghost(done): Ghost<Seq<ScanRow>>,
)
    requires
        done.len() < u64::MAX,
        hourly::hour_start_in_range(row_instant(*row), local_offset_secs),
        sums_up_all(old(aggs)@, done, local_offset_secs),
    ensures
        sums_up_all(final(aggs)@, done.push(*row), local_offset_secs),
        total_queries(final(aggs)@) == total_queries(old(aggs)@) + 1,
{
    let ghost held = aggs@;
    let hour: u64 = hourly::local_hour_start_ms(instant(row), local_offset_secs);
    let ghost fits = in_group(local_offset_secs, hour, row.domain_group@);
    proof {
        filters::lemma_filter_push(done, *row, fits);
        done.lemma_filter_len(fits);
    }
    match find_group(aggs, hour, &row.domain_group) {
        Some(i) => {
            let a = &mut aggs[i];
            count_row(a, row, Ghost(done.filter(fits)));
            proof {
                assert(aggs@ =~= held.update(i as int, aggs@[i as int]));
                lemma_total_update(held, i as int, aggs@[i as int]);
                lemma_row_added(held, aggs@, i as int, done, *row, local_offset_secs);
            }
        },
        None => {
            let mut a = HourlyDetailScan {
                hour_timestamp: hour,
                domain_group: row.domain_group.clone(),
                query_count: 0,
                cached_count: 0,
                blocked_count: 0,
                cached_times: Vec::new(),
                uncached_times: Vec::new(),
            };
            proof {
                assert forall|j: int| 0 <= j < held.len() implies !stands_for(
                    #[trigger] held[j],
                    *row,
                    local_offset_secs,
                ) by {
                    assert(!(held[j].hour_timestamp == hour && held[j].domain_group@
                        == row.domain_group@));
                }
                lemma_group_unseen(held, done, *row, local_offset_secs);
                let none = Seq::<ScanRow>::empty();
                none.lemma_all_neg_filter_empty(cached());
                none.lemma_all_neg_filter_empty(uncached());
                none.lemma_all_neg_filter_empty(blocked());
                assert(a.cached_times@ =~= times(none.filter(cached())));
                assert(a.uncached_times@ =~= times(none.filter(uncached())));
            }
            count_row(&mut a, row, Ghost(Seq::empty()));
            aggs.push(a);
            proof {
                assert(aggs@.drop_last() =~= held);
                lemma_row_added(held, aggs@, held.len() as int, done, *row, local_offset_secs);
            }
        },
    }
}

/// Sums up rows of the query log by local hour and domain group; beside the
/// figures stands the number of rows. Rows that could not be read are skipped.
pub fn collect_hourly_detail_aggs(found: Vec<Option<ScanRow>>, local_offset_secs: i64) -> (r: (
    Vec<HourlyDetailScan>,
    u64,
))
    requires
        scan_in_range(found@, local_offset_secs),
    ensures
        sums_up_all(r.0@, rows::readable(found@), local_offset_secs),
        total_queries(r.0@) == rows::readable(found@).len(),
        r.1 == rows::readable(found@).len(),
{
    proof {
        lemma_readable_in_range(found@, local_offset_secs);
    }
    let rows = rows::keep_readable(found);
    let mut aggs: Vec<HourlyDetailScan> = Vec::new();
    let mut n: usize = 0;
    while n < rows.len()
        invariant
            n <= rows@.len(),
            forall|i: int|
                0 <= i < rows@.len() ==> hourly::hour_start_in_range(
                    row_instant(#[trigger] rows@[i]),
                    local_offset_secs,
                ),
            sums_up_all(aggs@, rows@.take(n as int), local_offset_secs),
            total_queries(aggs@) == n,
        decreases rows@.len() - n,
    {
        assert(rows@.take(n + 1) =~= rows@.take(n as int).push(rows@[n as int]));
        add_row(&mut aggs, &rows[n], local_offset_secs, Ghost(rows@.take(n as int)));
        n += 1;
    }
    assert(rows@.take(rows@.len() as int) =~= rows@);
    (aggs, n as u64)
}

/// Tells whether the local hour of every row that could be read can be computed.
pub fn scan_fits(found: &Vec<Option<ScanRow>>, local_offset_secs: i64) -> (r: bool)
    ensures
        r == scan_in_range(found@, local_offset_secs),
{
    let mut i: usize = 0;
    while i < found.len()
        invariant
            i <= found@.len(),
            forall|j: int|
                0 <= j < i && (#[trigger] found@[j]) is Some ==> hourly::hour_start_in_range(
                    row_instant(found@[j]->0),
                    local_offset_secs,
                ),
        decreases found@.len() - i,
    {
        if let Some(row) = &found[i] {
            if !hourly::local_hour_start_fits(instant(row), local_offset_secs) {
                assert(found@[i as int] is Some);
                return false;
            }
        }
        i += 1;
    }
    true
}

/// The figures of a scan with the sums of its two lists of times.
pub open spec fn completed(
    s: HourlyDetailScan,
    cached_time_sum: u64,
    uncached_time_sum: u64,
) -> HourlyDetailGroupAgg {
    HourlyDetailGroupAgg {
        hour_timestamp: s.hour_timestamp,
        domain_group: s.domain_group,
        query_count: s.query_count,
        cached_count: s.cached_count,
        blocked_count: s.blocked_count,
        cached_time_sum,
        cached_time_count: s.cached_times@.len() as u64,
        uncached_time_sum,
        uncached_time_count: s.uncached_times@.len() as u64,
    }
}

impl HourlyDetailScan {
    /// Completes the figures with the sums of the two lists of times.
    pub fn with_sums(self, cached_time_sum: u64, uncached_time_sum: u64) -> (r: HourlyDetailGroupAgg)
        ensures
            r == completed(self, cached_time_sum, uncached_time_sum),
    {
        HourlyDetailGroupAgg {
            hour_timestamp: self.hour_timestamp,
            domain_group: self.domain_group,
            query_count: self.query_count,
            cached_count: self.cached_count,
            blocked_count: self.blocked_count,
            cached_time_sum,
            cached_time_count: self.cached_times.len() as u64,
            uncached_time_sum,
            uncached_time_count: self.uncached_times.len() as u64,
        }
    }
}

/// Each element may stand before every later one.
pub open spec fn is_sorted(s: Seq<HourlyDetailGroupAgg>) -> bool {
    forall|i: int, j: int|
        #![trigger s[i], s[j]]
        0 <= i < j < s.len() ==> agg_not_after(s[i], s[j])
}

/// The figures of one hour and one domain group.
pub open spec fn of_group(hour: u64, group: Seq<char>) -> spec_fn(HourlyDetailGroupAgg) -> bool {
    |a: HourlyDetailGroupAgg| a.hour_timestamp == hour && a.domain_group@ == group
}

proof fn lemma_insert_sorted(s: Seq<HourlyDetailGroupAgg>, a: HourlyDetailGroupAgg)
    requires
        is_sorted(s),
    ensures
        is_sorted(insert_agg(s, a)),
        insert_agg(s, a).to_multiset() == s.to_multiset().insert(a),
        insert_agg(s, a).len() == s.len() + 1,
        forall|b: HourlyDetailGroupAgg|
            (forall|i: int| 0 <= i < s.len() ==> agg_not_after(#[trigger] s[i], b))
                && agg_not_after(a, b) ==> forall|i: int|
                0 <= i < s.len() + 1 ==> #[trigger] agg_not_after(insert_agg(s, a)[i], b),
    decreases s.len(),
{
    broadcast use vstd::seq_lib::group_to_multiset_ensures;

    let r = insert_agg(s, a);
    if s.len() == 0 || agg_not_after(s.last(), a) {
        assert forall|i: int, j: int|
            #![trigger r[i], r[j]]
            0 <= i < j < r.len() implies agg_not_after(r[i], r[j]) by {
            if j == s.len() && i < s.len() - 1 {
                assert(agg_not_after(s[i], s[s.len() - 1]));
                if s[i].hour_timestamp == a.hour_timestamp {
                    text::lemma_not_after_transitive(
                        s[i].domain_group@,
                        s.last().domain_group@,
                        a.domain_group@,
                    );
                }
            }
        }
    } else {
        let rest = s.drop_last();
        let last = s.last();
        assert(is_sorted(rest)) by {
            assert forall|i: int, j: int|
                #![trigger rest[i], rest[j]]
                0 <= i < j < rest.len() implies agg_not_after(rest[i], rest[j]) by {
                assert(agg_not_after(s[i], s[j]));
            }
        }
        lemma_insert_sorted(rest, a);
        let head = insert_agg(rest, a);
        text::lemma_not_after_total(a.domain_group@, last.domain_group@);
        assert(agg_not_after(a, last));
        assert forall|i: int| 0 <= i < rest.len() implies agg_not_after(#[trigger] rest[i], last) by {
            assert(agg_not_after(s[i], s[s.len() - 1]));
        }
        assert forall|i: int, j: int|
            #![trigger r[i], r[j]]
            0 <= i < j < r.len() implies agg_not_after(r[i], r[j]) by {
            if j < head.len() {
                assert(agg_not_after(head[i], head[j]));
            } else {
                assert(agg_not_after(head[i], last));
            }
        }
        assert(s =~= rest.push(last));
        assert forall|b: HourlyDetailGroupAgg|
            (forall|i: int| 0 <= i < s.len() ==> agg_not_after(#[trigger] s[i], b))
                && agg_not_after(a, b) implies forall|i: int|
            0 <= i < s.len() + 1 ==> #[trigger] agg_not_after(r[i], b) by {
            assert forall|i: int| 0 <= i < rest.len() implies agg_not_after(#[trigger] rest[i], b) by {
                assert(agg_not_after(s[i], b));
            }
            assert(agg_not_after(s[s.len() - 1], b));
            assert forall|i: int| 0 <= i < s.len() + 1 implies #[trigger] agg_not_after(r[i], b) by {
                if i < head.len() {
                    assert(agg_not_after(head[i], b));
                }
            }
        }
    }
}

proof fn lemma_insert_stable(
    s: Seq<HourlyDetailGroupAgg>,
    a: HourlyDetailGroupAgg,
    hour: u64,
    group: Seq<char>,
)
    ensures
        insert_agg(s, a).filter(of_group(hour, group)) == s.push(a).filter(of_group(hour, group)),
    decreases s.len(),
{
    let picked = of_group(hour, group);
    filters::lemma_filter_push(s, a, picked);
    if s.len() > 0 && !agg_not_after(s.last(), a) {
        let rest = s.drop_last();
        lemma_insert_stable(rest, a, hour, group);
        filters::lemma_filter_push(rest, a, picked);
        filters::lemma_filter_push(rest, s.last(), picked);
        filters::lemma_filter_push(insert_agg(rest, a), s.last(), picked);
        assert(rest.push(s.last()) =~= s);
        text::lemma_not_after_total(a.domain_group@, a.domain_group@);
    }
}

/// Sorting puts the figures in order by hour and name of the group, keeps every
/// one of them, and leaves those of the same hour and group as they came.
pub proof fn law_in_order_is_a_stable_sort(
    s: Seq<HourlyDetailGroupAgg>,
    hour: u64,
    group: Seq<char>,
)
    ensures
        is_sorted(in_order(s)),
        in_order(s).to_multiset() == s.to_multiset(),
        in_order(s).filter(of_group(hour, group)) == s.filter(of_group(hour, group)),
    decreases s.len(),
{
    broadcast use vstd::seq_lib::group_to_multiset_ensures;

    if s.len() > 0 {
        let rest = s.drop_last();
        law_in_order_is_a_stable_sort(rest, hour, group);
        lemma_insert_sorted(in_order(rest), s.last());
        lemma_insert_stable(in_order(rest), s.last(), hour, group);
        filters::lemma_filter_push(in_order(rest), s.last(), of_group(hour, group));
        filters::lemma_filter_push(rest, s.last(), of_group(hour, group));
        assert(rest.push(s.last()) =~= s);
    }
}

/// Rows can be summed up for every offset of a time zone, as long as no time is
/// within days of the largest signed number.
pub proof fn law_rows_can_be_summed_up(found: Seq<Option<ScanRow>>, local_offset_secs: i64)
    requires
        -1_000_000 <= local_offset_secs <= 1_000_000,
        forall|i: int|
            0 <= i < found.len() && (#[trigger] found[i]) is Some ==> found[i]->0.timestamp
                <= 0x7fff_ffff_0000_0000,
    ensures
        scan_in_range(found, local_offset_secs),
{
    assert forall|i: int|
        0 <= i < found.len() && (#[trigger] found[i]) is Some implies hourly::hour_start_in_range(
        row_instant(found[i]->0),
        local_offset_secs,
    ) by {
        hourly::law_hours_can_be_computed(row_instant(found[i]->0), local_offset_secs);
    }
}

} // verus!
