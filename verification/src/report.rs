//! The hourly report: collecting figures by hour, and putting them together.

use std::collections::{HashMap, HashSet};

use vstd::prelude::*;

use crate::detail;
use crate::detail::HourlyDetailGroupAgg;
use crate::model::DomainGroupHourlyStat;

verus! {

/// The figures of each hour, in the order in which they came.
pub open spec fn figures_in(hours: Map<u64, Vec<HourlyDetailGroupAgg>>) -> Map<
    u64,
    Seq<HourlyDetailGroupAgg>,
> {
    Map::new(|hour: u64| hours.contains_key(hour), |hour: u64| hours[hour]@)
}

/// `figures` with `a` behind those of its hour.
pub open spec fn with_agg(
    figures: Map<u64, Seq<HourlyDetailGroupAgg>>,
    a: HourlyDetailGroupAgg,
) -> Map<u64, Seq<HourlyDetailGroupAgg>> {
    let before = if figures.dom().contains(a.hour_timestamp) {
        figures[a.hour_timestamp]
    } else {
        Seq::empty()
    };
    figures.insert(a.hour_timestamp, before.push(a))
}

/// `figures` with all of `aggs`, one after another.
pub open spec fn with_aggs(
    figures: Map<u64, Seq<HourlyDetailGroupAgg>>,
    aggs: Seq<HourlyDetailGroupAgg>,
) -> Map<u64, Seq<HourlyDetailGroupAgg>>
    decreases aggs.len(),
{
    if aggs.len() == 0 {
        figures
    } else {
        with_agg(with_aggs(figures, aggs.drop_last()), aggs.last())
    }
}

fn push_agg(hours: &mut HashMap<u64, Vec<HourlyDetailGroupAgg>>, a: HourlyDetailGroupAgg)
    ensures
        figures_in(final(hours)@) == with_agg(figures_in(old(hours)@), a),
{
    broadcast use vstd::std_specs::hash::group_hash_axioms;

    let ghost before = hours@;
    let hour: u64 = a.hour_timestamp;
    let groups = hours.entry(hour).or_insert(Vec::new());
    groups.push(a);
    assert(figures_in(hours@) =~= with_agg(figures_in(before), a));
}

/// Adds figures to those of their hours.
pub fn push_hourly_detail_aggs(
    hours: &mut HashMap<u64, Vec<HourlyDetailGroupAgg>>,
    aggs: Vec<HourlyDetailGroupAgg>,
)
    ensures
        figures_in(final(hours)@) == with_aggs(figures_in(old(hours)@), aggs@),
{
    let ghost all = aggs@;
    let ghost before = figures_in(hours@);
    for a in it: aggs
        invariant
            it.seq() == all,
            figures_in(hours@) == with_aggs(before, all.take(it.index() as int)),
    {
        assert(all.take(it.index() + 1).drop_last() =~= all.take(it.index() as int));
        push_agg(hours, a);
    }
    assert(all.take(all.len() as int) =~= all);
}

/// The hours that have figures.
pub fn hours_with_figures(hours: &HashMap<u64, Vec<HourlyDetailGroupAgg>>) -> (r: HashSet<u64>)
    ensures
        r@ == hours@.dom(),
{
    broadcast use vstd::std_specs::hash::group_hash_axioms;

    let mut r: HashSet<u64> = HashSet::new();
    for hour in it: hours.keys()
        invariant
            it.seq().unref().to_set() == hours@.dom(),
            r@ == it.seq().unref().take(it.index() as int).to_set(),
            it.index() == it.seq().len() ==> r@ == hours@.dom(),
    {
        let ghost done = it.seq().unref().take(it.index() as int);
        let ghost now = it.seq().unref().take(it.index() + 1);
        r.insert(*hour);
        assert(now =~= done.push(*hour));
        assert(now.to_set() =~= done.to_set().insert(*hour)) by {
            lemma_set_of_push(done, *hour);
        }
        assert(it.index() + 1 == it.seq().len() ==> now =~= it.seq().unref());
    }
    r
}

proof fn lemma_set_of_push(s: Seq<u64>, x: u64)
    ensures
        s.push(x).to_set() == s.to_set().insert(x),
{
    assert forall|y: u64| s.push(x).to_set().contains(y) <==> #[trigger] s.to_set().insert(
        x,
    ).contains(y) by {
        if s.contains(y) {
            let k = choose|k: int| 0 <= k < s.len() && s[k] == y;
            assert(s.push(x)[k] == y);
        }
        if y == x {
            assert(s.push(x)[s.len() as int] == y);
        }
        if s.push(x).contains(y) && y != x {
            let k = choose|k: int| 0 <= k < s.push(x).len() && s.push(x)[k] == y;
            assert(s[k] == y);
        }
    }
    assert(s.push(x).to_set() =~= s.to_set().insert(x));
}

/// The lower 32 bits of a number.
pub open spec fn low32(n: u64) -> nat {
    (n % 0x1_0000_0000) as nat
}

fn lower_32_bits(n: u64) -> (r: u32)
    ensures
        r == low32(n),
{
    let r: u32 = n as u32;
    assert(n as u32 == n % 0x1_0000_0000) by (bit_vector);
    r
}

/// The sum of a figure over a list.
pub open spec fn sum(
    s: Seq<HourlyDetailGroupAgg>,
    figure: spec_fn(HourlyDetailGroupAgg) -> nat,
) -> nat
    decreases s.len(),
{
    if s.len() == 0 {
        0
    } else {
        sum(s.drop_last(), figure) + figure(s.last())
    }
}

pub open spec fn queries() -> spec_fn(HourlyDetailGroupAgg) -> nat {
    |a: HourlyDetailGroupAgg| low32(a.query_count)
}

pub open spec fn cached_queries() -> spec_fn(HourlyDetailGroupAgg) -> nat {
    |a: HourlyDetailGroupAgg| low32(a.cached_count)
}

pub open spec fn blocked_queries() -> spec_fn(HourlyDetailGroupAgg) -> nat {
    |a: HourlyDetailGroupAgg| low32(a.blocked_count)
}

pub open spec fn cached_times() -> spec_fn(HourlyDetailGroupAgg) -> nat {
    |a: HourlyDetailGroupAgg| a.cached_time_count as nat
}

pub open spec fn uncached_times() -> spec_fn(HourlyDetailGroupAgg) -> nat {
    |a: HourlyDetailGroupAgg| a.uncached_time_count as nat
}

/// The number, or the largest 32-bit number where it is above that.
pub open spec fn saturated(n: nat) -> u32 {
    if n <= u32::MAX {
        n as u32
    } else {
        u32::MAX
    }
}

/// One hour of the report. The average times are the sums of the listed parts,
/// added up in order, divided by the numbers of times; 0 where there is no time.
#[derive(Debug)]
pub struct HourlyDetailItem {
    pub hour_timestamp: u64,
    pub query_count: u32,
    pub cached_count: u32,
    pub blocked_count: u32,
    pub cached_time_sums: Vec<u64>,
    pub cached_time_count: u64,
    pub uncached_time_sums: Vec<u64>,
    pub uncached_time_count: u64,
    pub groups: Vec<DomainGroupHourlyStat>,
}

/// The item reports the figures `g` of the hour, group by group.
pub open spec fn reports(
    item: HourlyDetailItem,
    hour: u64,
    g: Seq<HourlyDetailGroupAgg>,
) -> bool {
    &&& item.hour_timestamp == hour
    &&& item.query_count == saturated(sum(g, queries()))
    &&& item.cached_count == saturated(sum(g, cached_queries()))
    &&& item.blocked_count == saturated(sum(g, blocked_queries()))
    &&& item.cached_time_sums@ == Seq::new(g.len(), |i: int| g[i].cached_time_sum)
    &&& item.cached_time_count == sum(g, cached_times())
    &&& item.uncached_time_sums@ == Seq::new(g.len(), |i: int| g[i].uncached_time_sum)
    &&& item.uncached_time_count == sum(g, uncached_times())
    &&& item.groups@.len() == g.len()
    &&& forall|i: int|
        0 <= i < g.len() ==> {
            &&& (#[trigger] item.groups@[i]).domain_group@ == g[i].domain_group@
            &&& item.groups@[i].query_count == low32(g[i].query_count)
            &&& item.groups@[i].cached_count == low32(g[i].cached_count)
        }
}

/// The numbers of times of one hour add up to 64-bit numbers.
pub open spec fn time_counts_fit(g: Seq<HourlyDetailGroupAgg>) -> bool {
    sum(g, cached_times()) <= u64::MAX && sum(g, uncached_times()) <= u64::MAX
}

proof fn lemma_sum_insert(
    s: Seq<HourlyDetailGroupAgg>,
    a: HourlyDetailGroupAgg,
    figure: spec_fn(HourlyDetailGroupAgg) -> nat,
)
    ensures
        sum(detail::insert_agg(s, a), figure) == sum(s, figure) + figure(a),
    decreases s.len(),
{
    if s.len() == 0 || detail::agg_not_after(s.last(), a) {
        assert(s.push(a).drop_last() =~= s);
    } else {
        let rest = detail::insert_agg(s.drop_last(), a);
        lemma_sum_insert(s.drop_last(), a, figure);
        assert(rest.push(s.last()).drop_last() =~= rest);
    }
}

/// A sum does not depend on the order.
pub proof fn lemma_sum_in_order(
    s: Seq<HourlyDetailGroupAgg>,
    figure: spec_fn(HourlyDetailGroupAgg) -> nat,
)
    ensures
        sum(detail::in_order(s), figure) == sum(s, figure),
    decreases s.len(),
{
    if s.len() > 0 {
        lemma_sum_in_order(s.drop_last(), figure);
        lemma_sum_insert(detail::in_order(s.drop_last()), s.last(), figure);
    }
}

proof fn lemma_sum_take(
    s: Seq<HourlyDetailGroupAgg>,
    n: int,
    figure: spec_fn(HourlyDetailGroupAgg) -> nat,
)
    requires
        0 <= n < s.len(),
    ensures
        sum(s.take(n + 1), figure) == sum(s.take(n), figure) + figure(s[n]),
        sum(s.take(n + 1), figure) <= sum(s, figure),
    decreases s.len() - n,
{
    assert(s.take(n + 1).drop_last() =~= s.take(n));
    if n + 1 < s.len() {
        lemma_sum_take(s, n + 1, figure);
    } else {
        assert(s.take(n + 1) =~= s);
    }
}

fn hour_item(hour: u64, groups: Vec<HourlyDetailGroupAgg>) -> (r: HourlyDetailItem)
    requires
        time_counts_fit(groups@),
    ensures
        reports(r, hour, detail::in_order(groups@)),
{
    proof {
        lemma_sum_in_order(groups@, cached_times());
        lemma_sum_in_order(groups@, uncached_times());
    }
    let sorted = detail::sort_aggs(groups);
    let ghost g = sorted@;
    let mut item = HourlyDetailItem {
        hour_timestamp: hour,
        query_count: 0,
        cached_count: 0,
        blocked_count: 0,
        cached_time_sums: Vec::new(),
        cached_time_count: 0,
        uncached_time_sums: Vec::new(),
        uncached_time_count: 0,
        groups: Vec::new(),
    };
    let mut i: usize = 0;
    proof {
        let none = g.take(0);
        assert(item.cached_time_sums@ =~= Seq::new(none.len(), |k: int| none[k].cached_time_sum));
        assert(item.uncached_time_sums@ =~= Seq::new(none.len(), |k: int| none[k].uncached_time_sum));
    }
    while i < sorted.len()
        invariant
            g == sorted@,
            i <= g.len(),
            time_counts_fit(g),
            reports(item, hour, g.take(i as int)),
        decreases g.len() - i,
    {
        let ghost now = g.take(i + 1);
        proof {
            lemma_sum_take(g, i as int, queries());
            lemma_sum_take(g, i as int, cached_queries());
            lemma_sum_take(g, i as int, blocked_queries());
            lemma_sum_take(g, i as int, cached_times());
            lemma_sum_take(g, i as int, uncached_times());
        }
        let a = &sorted[i];
        let group_queries: u32 = lower_32_bits(a.query_count);
        let group_cached: u32 = lower_32_bits(a.cached_count);
        item.query_count = item.query_count.saturating_add(group_queries);
        item.cached_count = item.cached_count.saturating_add(group_cached);
        item.blocked_count = item.blocked_count.saturating_add(lower_32_bits(a.blocked_count));
        item.cached_time_sums.push(a.cached_time_sum);
        item.cached_time_count = item.cached_time_count + a.cached_time_count;
        item.uncached_time_sums.push(a.uncached_time_sum);
        item.uncached_time_count = item.uncached_time_count + a.uncached_time_count;
        item.groups.push(
            DomainGroupHourlyStat {
                domain_group: a.domain_group.clone(),
                query_count: group_queries,
                cached_count: group_cached,
            },
        );
        assert(item.cached_time_sums@ =~= Seq::new(now.len(), |k: int| now[k].cached_time_sum));
        assert(item.uncached_time_sums@ =~= Seq::new(now.len(), |k: int| now[k].uncached_time_sum));
        i += 1;
    }
    assert(g.take(g.len() as int) =~= g);
    item
}

/// The numbers fall.
spec fn falls(s: Seq<u64>) -> bool {
    forall|i: int, j: int|
        #![trigger s[i], s[j]]
        0 <= i < j < s.len() ==> s[i] > s[j]
}

/// Puts a number that is not there yet into its place.
fn insert_falling(list: &mut Vec<u64>, x: u64)
    requires
        falls(old(list)@),
        !old(list)@.contains(x),
    ensures
        falls(final(list)@),
        final(list)@.to_set() == old(list)@.to_set().insert(x),
{
    let ghost held = list@;
    let mut i: usize = 0;
    while i < list.len() && list[i] > x
        invariant
            list@ == held,
            i <= list@.len(),
            forall|j: int| 0 <= j < i ==> #[trigger] list@[j] > x,
        decreases list@.len() - i,
    {
        i += 1;
    }
    proof {
        assert forall|j: int| i <= j < held.len() implies #[trigger] held[j] < x by {
            assert(held.contains(held[j]));
            if j > i {
                assert(held[i as int] > held[j]);
            }
        }
    }
    list.insert(i, x);
    proof {
        let now = list@;
        assert forall|p: int, q: int|
            #![trigger now[p], now[q]]
            0 <= p < q < now.len() implies now[p] > now[q] by {
            if q < i {
                assert(held[p] > held[q]);
            } else if p > i {
                assert(held[p - 1] > held[q - 1]);
            } else if p < i && q > i {
                assert(held[p] > x);
                assert(held[q - 1] < x);
            } else if p == i {
                assert(held[q - 1] < x);
            } else {
                assert(held[p] > x);
            }
        }
        assert forall|y: u64| now.to_set().contains(y) <==> #[trigger] held.to_set().insert(
            x,
        ).contains(y) by {
            if now.contains(y) {
                let k = choose|k: int| 0 <= k < now.len() && now[k] == y;
                if k < i {
                    assert(held[k] == y);
                } else if k > i {
                    assert(held[k - 1] == y);
                }
            }
            if held.contains(y) {
                let k = choose|k: int| 0 <= k < held.len() && held[k] == y;
                if k < i {
                    assert(now[k] == y);
                } else {
                    assert(now[k + 1] == y);
                }
            }
            assert(now[i as int] == x);
        }
        assert(now.to_set() =~= held.to_set().insert(x));
    }
}

/// The hours that have figures, the latest first.
fn newest_first(hours: &HashMap<u64, Vec<HourlyDetailGroupAgg>>) -> (r: Vec<u64>)
    ensures
        falls(r@),
        r@.to_set() == hours@.dom(),
{
    broadcast use vstd::std_specs::hash::group_hash_axioms;

    let mut r: Vec<u64> = Vec::new();
    assert(r@.to_set() =~= Set::empty());
    for hour in it: hours.keys()
        invariant
            it.seq().unref().to_set() == hours@.dom(),
            it.seq().no_duplicates(),
            falls(r@),
            r@.to_set() == it.seq().unref().take(it.index() as int).to_set(),
            it.index() == it.seq().len() ==> r@.to_set() == hours@.dom(),
    {
        let ghost all = it.seq().unref();
        let ghost done = all.take(it.index() as int);
        let ghost now = all.take(it.index() + 1);
        proof {
            assert(now =~= done.push(*hour));
            lemma_set_of_push(done, *hour);
            if r@.contains(*hour) {
                assert(r@.to_set().contains(*hour));
                assert(done.contains(*hour));
                let k = choose|k: int| 0 <= k < done.len() && done[k] == *hour;
                assert(it.seq()[k] == it.seq()[it.index() as int]);
            }
        }
        insert_falling(&mut r, *hour);
        assert(it.index() + 1 == all.len() ==> now =~= all);
    }
    r
}

/// The report of all figures: one item for each hour, the latest first; within
/// an hour the groups by name.
pub open spec fn is_report(
    items: Seq<HourlyDetailItem>,
    figures: Map<u64, Seq<HourlyDetailGroupAgg>>,
) -> bool {
    &&& forall|i: int, j: int|
        #![trigger items[i], items[j]]
        0 <= i < j < items.len() ==> items[i].hour_timestamp > items[j].hour_timestamp
    &&& forall|i: int|
        0 <= i < items.len() ==> figures.dom().contains((#[trigger] items[i]).hour_timestamp)
            && reports(
            items[i],
            items[i].hour_timestamp,
            detail::in_order(figures[items[i].hour_timestamp]),
        )
    &&& forall|hour: u64| #[trigger]
        figures.dom().contains(hour) ==> exists|i: int|
            0 <= i < items.len() && (#[trigger] items[i]).hour_timestamp == hour
}

/// The numbers of times of every hour add up to 64-bit numbers.
pub open spec fn report_in_range(figures: Map<u64, Seq<HourlyDetailGroupAgg>>) -> bool {
    forall|hour: u64| #[trigger] figures.dom().contains(hour) ==> time_counts_fit(figures[hour])
}

fn hour_items(hours: HashMap<u64, Vec<HourlyDetailGroupAgg>>) -> (r: Vec<HourlyDetailItem>)
    requires
        report_in_range(figures_in(hours@)),
    ensures
        is_report(r@, figures_in(hours@)),
{
    broadcast use vstd::std_specs::hash::group_hash_axioms;

    let ghost figures = figures_in(hours@);
    let sorted = newest_first(&hours);
    let mut left = hours;
    let mut r: Vec<HourlyDetailItem> = Vec::new();
    let mut i: usize = 0;
    proof {
        assert forall|j: int| 0 <= j < sorted@.len() implies figures.dom().contains(
            #[trigger] sorted@[j],
        ) by {
            assert(sorted@.to_set().contains(sorted@[j]));
        }
    }
    while i < sorted.len()
        invariant
            report_in_range(figures),
            falls(sorted@),
            i <= sorted@.len(),
            forall|j: int|
                0 <= j < sorted@.len() ==> figures.dom().contains(#[trigger] sorted@[j]),
            forall|j: int|
                i <= j < sorted@.len() ==> left@.contains_key(#[trigger] sorted@[j])
                    && left@[sorted@[j]]@ == figures[sorted@[j]],
            r@.len() == i,
            forall|j: int|
                0 <= j < i ==> reports(
                    #[trigger] r@[j],
                    sorted@[j],
                    detail::in_order(figures[sorted@[j]]),
                ),
        decreases sorted@.len() - i,
    {
        let hour: u64 = sorted[i];
        let ghost before = left@;
        if let Some(groups) = left.remove(&hour) {
            r.push(hour_item(hour, groups));
        }
        assert forall|j: int| i < j < sorted@.len() implies left@.contains_key(
            #[trigger] sorted@[j],
        ) && left@[sorted@[j]]@ == figures[sorted@[j]] by {
            assert(sorted@[i as int] > sorted@[j]);
        }
        i += 1;
    }
    proof {
        assert forall|hour: u64| #[trigger] figures.dom().contains(hour) implies exists|j: int|
            0 <= j < r@.len() && (#[trigger] r@[j]).hour_timestamp == hour by {
            assert(sorted@.to_set().contains(hour));
            let j = choose|j: int| 0 <= j < sorted@.len() && sorted@[j] == hour;
            assert(r@[j].hour_timestamp == hour);
        }
    }
    r
}

/// The hourly report, with the time at which it was asked for.
#[derive(Debug)]
pub struct HourlyDetail {
    pub query_timestamp: u64,
    pub hourly_detail: Vec<HourlyDetailItem>,
}

/// Puts the report together; without figures it is empty.
pub fn assemble_hourly_detail(
    query_timestamp: u64,
    hours: HashMap<u64, Vec<HourlyDetailGroupAgg>>,
) -> (r: HourlyDetail)
    requires
        report_in_range(figures_in(hours@)),
    ensures
        r.query_timestamp == query_timestamp,
        is_report(r.hourly_detail@, figures_in(hours@)),
{
    HourlyDetail { query_timestamp, hourly_detail: hour_items(hours) }
}

fn hour_fits(groups: &Vec<HourlyDetailGroupAgg>) -> (r: bool)
    ensures
        r == time_counts_fit(groups@),
{
    let mut cached: u64 = 0;
    let mut uncached: u64 = 0;
    let mut i: usize = 0;
    while i < groups.len()
        invariant
            i <= groups@.len(),
            cached == sum(groups@.take(i as int), cached_times()),
            uncached == sum(groups@.take(i as int), uncached_times()),
        decreases groups@.len() - i,
    {
        proof {
            lemma_sum_take(groups@, i as int, cached_times());
            lemma_sum_take(groups@, i as int, uncached_times());
        }
        match (
            cached.checked_add(groups[i].cached_time_count),
            uncached.checked_add(groups[i].uncached_time_count),
        ) {
            (Some(c), Some(u)) => {
                cached = c;
                uncached = u;
            },
            _ => return false,
        }
        i += 1;
    }
    assert(groups@.take(groups@.len() as int) =~= groups@);
    true
}

/// Tells whether the numbers of times of every hour add up to 64-bit numbers.
pub fn report_fits(hours: &HashMap<u64, Vec<HourlyDetailGroupAgg>>) -> (r: bool)
    ensures
        r == report_in_range(figures_in(hours@)),
{
    broadcast use vstd::std_specs::hash::group_hash_axioms;

    let sorted = newest_first(hours);
    let mut i: usize = 0;
    while i < sorted.len()
        invariant
            sorted@.to_set() == hours@.dom(),
            i <= sorted@.len(),
            forall|j: int| 0 <= j < i ==> time_counts_fit(hours@[#[trigger] sorted@[j]]@),
        decreases sorted@.len() - i,
    {
        let hour: u64 = sorted[i];
        assert(sorted@.to_set().contains(hour));
        if let Some(groups) = hours.get(&hour) {
            if !hour_fits(groups) {
                assert(figures_in(hours@).dom().contains(hour));
                return false;
            }
        }
        i += 1;
    }
    proof {
        let figures = figures_in(hours@);
        assert forall|hour: u64| #[trigger] figures.dom().contains(hour) implies time_counts_fit(
            figures[hour],
        ) by {
            assert(sorted@.to_set().contains(hour));
            let j = choose|j: int| 0 <= j < sorted@.len() && sorted@[j] == hour;
            assert(time_counts_fit(hours@[sorted@[j]]@));
        }
    }
    true
}

/// A report can be put together as long as the numbers of times of each hour add
/// up to 64-bit numbers, which they do where no list of figures has more times
/// than 32 bits count and none has more figures than that.
pub proof fn law_reports_can_be_put_together(figures: Map<u64, Seq<HourlyDetailGroupAgg>>)
    requires
        forall|hour: u64| #[trigger]
            figures.dom().contains(hour) ==> figures[hour].len() <= 0xffff_ffff && forall|i: int|
                0 <= i < figures[hour].len() ==> (#[trigger] figures[hour][i]).cached_time_count
                    <= 0xffff_ffff && figures[hour][i].uncached_time_count <= 0xffff_ffff,
    ensures
        report_in_range(figures),
{
    assert forall|hour: u64| #[trigger] figures.dom().contains(hour) implies time_counts_fit(
        figures[hour],
    ) by {
        lemma_small_sum(figures[hour], cached_times());
        lemma_small_sum(figures[hour], uncached_times());
        let n = figures[hour].len();
        assert(n * 0xffff_ffff <= 0xffff_ffff * 0xffff_ffff) by (nonlinear_arith)
            requires
                n <= 0xffff_ffff,
        ;
    }
}

proof fn lemma_small_sum(
    s: Seq<HourlyDetailGroupAgg>,
    figure: spec_fn(HourlyDetailGroupAgg) -> nat,
)
    requires
        forall|i: int| 0 <= i < s.len() ==> figure(#[trigger] s[i]) <= 0xffff_ffff,
    ensures
        sum(s, figure) <= s.len() * 0xffff_ffff,
    decreases s.len(),
{
    if s.len() > 0 {
        let rest = s.drop_last();
        assert forall|i: int| 0 <= i < rest.len() implies figure(#[trigger] rest[i])
            <= 0xffff_ffff by {
            assert(rest[i] == s[i]);
        }
        lemma_small_sum(rest, figure);
        assert(figure(s[s.len() - 1]) <= 0xffff_ffff);
        assert(s.len() * 0xffff_ffff == rest.len() * 0xffff_ffff + 0xffff_ffff)
            by (nonlinear_arith)
            requires
                s.len() == rest.len() + 1,
        ;
    }
}

} // verus!
