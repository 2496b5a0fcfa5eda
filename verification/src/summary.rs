//! Keeping the hourly summaries: which hours are summed up, whether the table
//! of summaries is complete, and how figures are written to it.

use std::collections::HashSet;

use vstd::prelude::*;
use vstd::string::*;

use crate::db::DB;
use crate::detail::HourlyDetailGroupAgg;
use crate::error::DbError;
use crate::hourly;
use crate::hourly::{HOURLY_DETAIL_HOUR_MS, HOURLY_DETAIL_RECHECK_HOURS};
use crate::sql;
use crate::sql::{Batch, SqlParam, Statement};
use crate::window;
use crate::window::StoredRow;

verus! {

/// Writes the figures of an hour and a group over those that are stored.
pub const HOURLY_DETAIL_UPSERT_SQL: &'static str =
    "INSERT INTO domain_hourly_detail (hour_timestamp, domain_group, query_count, cached_count, blocked_count, cached_time_sum, cached_time_count, uncached_time_sum, uncached_time_count) VALUES (?1, ?2, ?3, ?4, ?5, ?6, ?7, ?8, ?9) ON CONFLICT(hour_timestamp, domain_group) DO UPDATE SET query_count = excluded.query_count, cached_count = excluded.cached_count, blocked_count = excluded.blocked_count, cached_time_sum = excluded.cached_time_sum, cached_time_count = excluded.cached_time_count, uncached_time_sum = excluded.uncached_time_sum, uncached_time_count = excluded.uncached_time_count";

/// Finds the hours that have a summary.
pub const STORED_HOURS_SQL: &'static str =
    "SELECT DISTINCT hour_timestamp FROM domain_hourly_detail WHERE hour_timestamp >= ?1 AND hour_timestamp < ?2";

/// Finds the local hours in which the log has a row.
pub const DETAIL_HOURS_SQL: &'static str =
    "SELECT DISTINCT (timestamp + ?1) / ?2 * ?2 - ?1 AS hour FROM domain WHERE timestamp >= ?3 AND timestamp < ?4";

/// Drops the summaries up to an instant.
pub const DELETE_HOURLY_DETAIL_SQL: &'static str =
    "DELETE FROM domain_hourly_detail WHERE hour_timestamp <= ?";

/// The values that are stored for the figures of an hour and a group.
pub open spec fn agg_values(a: HourlyDetailGroupAgg) -> Seq<sql::SqlValue> {
    seq![
        sql::SqlValue::Integer(hourly::signed(a.hour_timestamp)),
        sql::SqlValue::Text(a.domain_group@),
        sql::SqlValue::Integer(hourly::signed(a.query_count)),
        sql::SqlValue::Integer(hourly::signed(a.cached_count)),
        sql::SqlValue::Integer(hourly::signed(a.blocked_count)),
        sql::SqlValue::Real(a.cached_time_sum),
        sql::SqlValue::Integer(hourly::signed(a.cached_time_count)),
        sql::SqlValue::Real(a.uncached_time_sum),
        sql::SqlValue::Integer(hourly::signed(a.uncached_time_count)),
    ]
}

/// The batch that writes all figures, one row for each.
pub open spec fn upsert_batch(aggs: Seq<HourlyDetailGroupAgg>) -> sql::BatchModel {
    sql::BatchModel {
        sql: HOURLY_DETAIL_UPSERT_SQL@,
        rows: Seq::new(aggs.len(), |i: int| agg_values(aggs[i])),
    }
}

fn agg_params(a: &HourlyDetailGroupAgg) -> (r: Vec<SqlParam>)
    ensures
        sql::values(r@) == agg_values(*a),
{
    let mut r: Vec<SqlParam> = Vec::new();
    r.push(SqlParam::Integer(hourly::as_signed(a.hour_timestamp)));
    r.push(SqlParam::Text(a.domain_group.clone()));
    r.push(SqlParam::Integer(hourly::as_signed(a.query_count)));
    r.push(SqlParam::Integer(hourly::as_signed(a.cached_count)));
    r.push(SqlParam::Integer(hourly::as_signed(a.blocked_count)));
    r.push(SqlParam::Real(a.cached_time_sum));
    r.push(SqlParam::Integer(hourly::as_signed(a.cached_time_count)));
    r.push(SqlParam::Real(a.uncached_time_sum));
    r.push(SqlParam::Integer(hourly::as_signed(a.uncached_time_count)));
    assert(sql::values(r@) =~= agg_values(*a));
    r
}

/// The span of finished hours that the table of summaries answers for.
#[derive(Debug, Clone, Copy)]
pub struct RefreshWindow {
    /// The first hour of which the log holds every row.
    pub first_full_hour: u64,
    /// The hour that has not ended.
    pub current_hour: u64,
}

/// The instant up to which rows have been dropped from the log.
pub open spec fn retention_start(now_ms: u64, retention_ms: u64) -> u64 {
    if now_ms >= retention_ms {
        (now_ms - retention_ms) as u64
    } else {
        0
    }
}

/// The hours of a refresh can be computed.
pub open spec fn refresh_in_range(now_ms: u64, retention_ms: u64, local_offset_secs: i64) -> bool {
    &&& hourly::hour_start_in_range(now_ms, local_offset_secs)
    &&& hourly::hour_start_in_range(retention_start(now_ms, retention_ms), local_offset_secs)
}

/// The first hour that lies within the retention as a whole.
pub open spec fn first_full_hour(now_ms: u64, retention_ms: u64, local_offset_secs: i64) -> u64 {
    window::next_hour(
        hourly::hour_start(retention_start(now_ms, retention_ms), local_offset_secs),
    )
}

/// Tells whether the hours of a refresh can be computed.
pub fn refresh_fits(now_ms: u64, retention_ms: u64, local_offset_secs: i64) -> (r: bool)
    ensures
        r == refresh_in_range(now_ms, retention_ms, local_offset_secs),
{
    hourly::local_hour_start_fits(now_ms, local_offset_secs) && hourly::local_hour_start_fits(
        now_ms.saturating_sub(retention_ms),
        local_offset_secs,
    )
}

impl DB {
    /// Computes the span that the table of summaries answers for; none where no
    /// finished hour lies within the retention.
    pub fn refresh_hourly_detail(&self, now_ms: u64, retention_ms: u64, local_offset_secs: i64) -> (r: Option<
        RefreshWindow,
    >)
        requires
            refresh_in_range(now_ms, retention_ms, local_offset_secs),
        ensures
            ({
                let first = first_full_hour(now_ms, retention_ms, local_offset_secs);
                let current = hourly::hour_start(now_ms, local_offset_secs);
                r == if first < current {
                    Some(RefreshWindow { first_full_hour: first, current_hour: current })
                } else {
                    None
                }
            }),
    {
        let current_hour: u64 = hourly::local_hour_start_ms(now_ms, local_offset_secs);
        let first_full_hour: u64 = hourly::local_hour_start_ms(
            now_ms.saturating_sub(retention_ms),
            local_offset_secs,
        ).saturating_add(HOURLY_DETAIL_HOUR_MS);
        if first_full_hour >= current_hour {
            return None;
        }
        Some(RefreshWindow { first_full_hour, current_hour })
    }
}

/// A row that holds an hour; an hour before 1970 counts as 1970.
pub open spec fn hour_of_row(v: i64) -> u64 {
    window::natural(Some(v))
}

/// The hours of a list of rows.
pub open spec fn hours_of_rows(rows: Seq<i64>) -> Set<u64> {
    Set::new(|h: u64| exists|i: int| 0 <= i < rows.len() && hour_of_row(#[trigger] rows[i]) == h)
}

fn row_hour(v: i64) -> (r: u64)
    ensures
        r == hour_of_row(v),
{
    if v > 0 {
        v as u64
    } else {
        0
    }
}

fn hour_set(rows: &Vec<i64>) -> (r: HashSet<u64>)
    ensures
        r@ == hours_of_rows(rows@),
{
    broadcast use vstd::std_specs::hash::group_hash_axioms;

    let mut r: HashSet<u64> = HashSet::new();
    let mut i: usize = 0;
    assert(r@ =~= hours_of_rows(rows@.take(0)));
    while i < rows.len()
        invariant
            i <= rows@.len(),
            r@ == hours_of_rows(rows@.take(i as int)),
        decreases rows@.len() - i,
    {
        let hour: u64 = row_hour(rows[i]);
        let ghost before = rows@.take(i as int);
        let ghost after = rows@.take(i + 1);
        r.insert(hour);
        proof {
            assert forall|h: u64| hours_of_rows(before).insert(hour).contains(h)
                <==> #[trigger] hours_of_rows(after).contains(h) by {
                if hours_of_rows(before).contains(h) {
                    let k = choose|k: int|
                        0 <= k < before.len() && hour_of_row(#[trigger] before[k]) == h;
                    assert(hour_of_row(after[k]) == h);
                }
                if h == hour {
                    assert(hour_of_row(after[i as int]) == h);
                }
                if hours_of_rows(after).contains(h) {
                    let k = choose|k: int|
                        0 <= k < after.len() && hour_of_row(#[trigger] after[k]) == h;
                    if k < i {
                        assert(hour_of_row(before[k]) == h);
                    }
                }
            }
            assert(r@ =~= hours_of_rows(after));
        }
        i += 1;
    }
    assert(rows@.take(rows@.len() as int) =~= rows@);
    r
}

impl RefreshWindow {
    /// The statement that finds the hours in which the log has a row; the
    /// offset in milliseconds has to be a signed 64-bit number.
    pub fn detail_hours_query(&self, local_offset_secs: i64) -> (r: Statement)
        requires
            hourly::fits_i64(local_offset_secs * 1000),
        ensures
            r@ == (sql::Command {
                sql: DETAIL_HOURS_SQL@,
                params: seq![
                    sql::SqlValue::Integer(local_offset_secs * 1000),
                    sql::SqlValue::Integer(HOURLY_DETAIL_HOUR_MS as int),
                    sql::SqlValue::Integer(hourly::signed(self.first_full_hour)),
                    sql::SqlValue::Integer(hourly::signed(self.current_hour)),
                ],
            }),
    {
        let mut params: Vec<SqlParam> = Vec::new();
        params.push(SqlParam::Integer(local_offset_secs * 1000));
        params.push(SqlParam::Integer(HOURLY_DETAIL_HOUR_MS as i64));
        params.push(SqlParam::Integer(hourly::as_signed(self.first_full_hour)));
        params.push(SqlParam::Integer(hourly::as_signed(self.current_hour)));
        let r = Statement { sql: DETAIL_HOURS_SQL.to_owned(), params };
        assert(sql::values(r.params@) =~= seq![
            sql::SqlValue::Integer(local_offset_secs * 1000),
            sql::SqlValue::Integer(HOURLY_DETAIL_HOUR_MS as int),
            sql::SqlValue::Integer(hourly::signed(self.first_full_hour)),
            sql::SqlValue::Integer(hourly::signed(self.current_hour)),
        ]);
        r
    }

    /// The statement that finds the hours that have a summary; it is run where
    /// the log has a row in the span.
    pub fn stored_hours_query(&self, detail_hours: &Vec<i64>) -> (r: Option<Statement>)
        ensures
            match r {
                Some(s) => detail_hours@.len() > 0 && s@ == window::span_command(
                    STORED_HOURS_SQL@,
                    hourly::signed(self.first_full_hour),
                    hourly::signed(self.current_hour),
                ),
                None => detail_hours@.len() == 0,
            },
    {
        if detail_hours.len() == 0 {
            return None;
        }
        Some(
            sql::binary_statement(
                STORED_HOURS_SQL,
                SqlParam::Integer(hourly::as_signed(self.first_full_hour)),
                SqlParam::Integer(hourly::as_signed(self.current_hour)),
            ),
        )
    }

    /// The span to sum up anew: the latest hours where the table is complete,
    /// else every hour that it answers for; never an hour that the retention
    /// has cut off.
    pub fn span_to_summarize(&self, covered: bool) -> (r: Option<(u64, u64)>)
        ensures
            r == summary_span(*self, covered),
    {
        let recheck_hour: u64 = self.current_hour.saturating_sub(
            HOURLY_DETAIL_RECHECK_HOURS * HOURLY_DETAIL_HOUR_MS,
        );
        let start_hour: u64 = if covered && recheck_hour > self.first_full_hour {
            recheck_hour
        } else {
            self.first_full_hour
        };
        if start_hour >= self.current_hour {
            None
        } else {
            Some((start_hour, self.current_hour))
        }
    }
}

/// The hour a few hours before `current`, as far as there is one.
pub open spec fn recheck_hour(current: u64) -> u64 {
    if current >= HOURLY_DETAIL_RECHECK_HOURS * HOURLY_DETAIL_HOUR_MS {
        (current - HOURLY_DETAIL_RECHECK_HOURS * HOURLY_DETAIL_HOUR_MS) as u64
    } else {
        0
    }
}

/// The span that a refresh sums up: full hours within the retention only, the
/// latest of them where the table is complete.
pub open spec fn summary_span(w: RefreshWindow, covered: bool) -> Option<(u64, u64)> {
    let start = if covered && recheck_hour(w.current_hour) > w.first_full_hour {
        recheck_hour(w.current_hour)
    } else {
        w.first_full_hour
    };
    if start < w.current_hour {
        Some((start, w.current_hour))
    } else {
        None
    }
}

/// Tells whether every hour in which the log has a row has a summary.
pub fn hourly_detail_hours_covered(detail_hours: &Vec<i64>, stored_hours: &Vec<i64>) -> (r: bool)
    ensures
        r == hours_of_rows(detail_hours@).subset_of(hours_of_rows(stored_hours@)),
{
    let stored = hour_set(stored_hours);
    let mut i: usize = 0;
    while i < detail_hours.len()
        invariant
            i <= detail_hours@.len(),
            stored@ == hours_of_rows(stored_hours@),
            forall|j: int|
                0 <= j < i ==> stored@.contains(hour_of_row(#[trigger] detail_hours@[j])),
        decreases detail_hours@.len() - i,
    {
        let hour: u64 = row_hour(detail_hours[i]);
        if !hourly::holds_hour(&stored, hour) {
            assert(hours_of_rows(detail_hours@).contains(hour_of_row(detail_hours@[i as int])));
            return false;
        }
        i += 1;
    }
    assert forall|h: u64| hours_of_rows(detail_hours@).contains(h) implies hours_of_rows(
        stored_hours@,
    ).contains(h) by {
        let k = choose|k: int|
            0 <= k < detail_hours@.len() && hour_of_row(#[trigger] detail_hours@[k]) == h;
        assert(stored@.contains(hour_of_row(detail_hours@[k])));
    }
    true
}

impl DB {
    /// The batch that writes figures over those that are stored; none where
    /// there are no figures, whether or not a database is attached.
    pub fn upsert_domain_hourly_detail(&self, aggs: &Vec<HourlyDetailGroupAgg>) -> (r: Result<
        Option<Batch>,
        DbError,
    >)
        ensures
            match r {
                Ok(None) => aggs@.len() == 0,
                Ok(Some(b)) => aggs@.len() > 0 && self.is_open && b@ == upsert_batch(aggs@),
                Err(e) => aggs@.len() > 0 && !self.is_open && e == DbError::NotOpen,
            },
    {
        if aggs.len() == 0 {
            return Ok(None);
        }
        if !self.is_open {
            return Err(DbError::NotOpen);
        }
        let mut rows: Vec<Vec<SqlParam>> = Vec::new();
        let mut i: usize = 0;
        while i < aggs.len()
            invariant
                i <= aggs@.len(),
                sql::row_values(rows@) == Seq::new(i as nat, |k: int| agg_values(aggs@[k])),
            decreases aggs@.len() - i,
        {
            let ghost held = rows@;
            rows.push(agg_params(&aggs[i]));
            proof {
                sql::lemma_row_values_push(held, rows@.last());
                assert(sql::row_values(rows@) =~= Seq::new(
                    (i + 1) as nat,
                    |k: int| agg_values(aggs@[k]),
                ));
            }
            i += 1;
        }
        Ok(Some(Batch { sql: HOURLY_DETAIL_UPSERT_SQL.to_owned(), rows }))
    }

    /// The statement that reads the log of a span that is to be summed up;
    /// none where the span is empty.
    pub fn summarize_hourly_detail(&self, start_ms: u64, end_ms: u64) -> (r: Result<
        Option<Statement>,
        DbError,
    >)
        ensures
            match r {
                Ok(None) => start_ms >= end_ms,
                Ok(Some(s)) => start_ms < end_ms && self.is_open && s@ == window::scan_command(
                    start_ms,
                    end_ms,
                ),
                Err(e) => start_ms < end_ms && !self.is_open && e == DbError::NotOpen,
            },
    {
        if start_ms >= end_ms {
            return Ok(None);
        }
        if !self.is_open {
            return Err(DbError::NotOpen);
        }
        Ok(Some(window::hourly_detail_scan_query(start_ms, end_ms)))
    }

    /// The statement that drops the summaries up to an instant.
    pub fn delete_hourly_detail_before_timestamp(&self, timestamp: u64) -> (r: Result<
        Statement,
        DbError,
    >)
        ensures
            match r {
                Ok(s) => self.is_open && s@ == (sql::Command {
                    sql: DELETE_HOURLY_DETAIL_SQL@,
                    params: seq![sql::SqlValue::Integer(hourly::signed(timestamp))],
                }),
                Err(e) => !self.is_open && e == DbError::NotOpen,
            },
    {
        if !self.is_open {
            return Err(DbError::NotOpen);
        }
        Ok(
            sql::unary_statement(
                DELETE_HOURLY_DETAIL_SQL,
                SqlParam::Integer(hourly::as_signed(timestamp)),
            ),
        )
    }
}

/// What a refresh sums up is made of full hours of local time within the
/// retention: neither the hour that has not ended nor the hour that the
/// retention cuts off is among them. No hour may lie before 1970.
pub proof fn law_refresh_sums_up_full_hours(
    now_ms: u64,
    retention_ms: u64,
    local_offset_secs: i64,
    covered: bool,
)
    requires
        hourly::hour_start_int(now_ms, local_offset_secs) >= 0,
        hourly::hour_start_int(retention_start(now_ms, retention_ms), local_offset_secs) >= 0,
    ensures
        ({
            let w = RefreshWindow {
                first_full_hour: first_full_hour(now_ms, retention_ms, local_offset_secs),
                current_hour: hourly::hour_start(now_ms, local_offset_secs),
            };
            summary_span(w, covered) matches Some(span) ==> {
                &&& span.1 == w.current_hour <= now_ms < span.1 + HOURLY_DETAIL_HOUR_MS
                &&& (span.0 + local_offset_secs * 1000) % (HOURLY_DETAIL_HOUR_MS as int) == 0
                &&& (span.1 + local_offset_secs * 1000) % (HOURLY_DETAIL_HOUR_MS as int) == 0
                &&& retention_start(now_ms, retention_ms) < span.0
            }
        }),
{
    hourly::law_hour_start_is_the_local_hour(now_ms, local_offset_secs);
    hourly::law_hour_start_is_the_local_hour(
        retention_start(now_ms, retention_ms),
        local_offset_secs,
    );
}

/// What the statement on the hours of the log computes for a row, where the
/// local time is not before 1970.
pub open spec fn detail_hour(timestamp: int, offset_ms: int) -> int {
    (timestamp + offset_ms) / (HOURLY_DETAIL_HOUR_MS as int) * HOURLY_DETAIL_HOUR_MS - offset_ms
}

/// The hour of a row that the database computes is the local hour of the row.
pub proof fn law_detail_hour_is_the_local_hour(timestamp: i64, local_offset_secs: i64)
    requires
        timestamp >= 0,
        timestamp + local_offset_secs * 1000 >= 0,
    ensures
        detail_hour(timestamp as int, local_offset_secs * 1000) == hourly::hour_start_int(
            timestamp as u64,
            local_offset_secs,
        ),
{
}

/// The columns by which the table of summaries finds a row: the hour and the group.
pub open spec fn row_key(row: Seq<sql::SqlValue>) -> (sql::SqlValue, sql::SqlValue) {
    (row[0], row[1])
}

/// The table of summaries after each row was written over the one with its key.
pub open spec fn written(
    table: Map<(sql::SqlValue, sql::SqlValue), Seq<sql::SqlValue>>,
    rows: Seq<Seq<sql::SqlValue>>,
) -> Map<(sql::SqlValue, sql::SqlValue), Seq<sql::SqlValue>>
    decreases rows.len(),
{
    if rows.len() == 0 {
        table
    } else {
        written(table, rows.drop_last()).insert(row_key(rows.last()), rows.last())
    }
}

/// Some row has the key.
spec fn has_key(rows: Seq<Seq<sql::SqlValue>>, key: (sql::SqlValue, sql::SqlValue)) -> bool {
    exists|i: int| 0 <= i < rows.len() && row_key(#[trigger] rows[i]) == key
}

proof fn lemma_written_at(
    table: Map<(sql::SqlValue, sql::SqlValue), Seq<sql::SqlValue>>,
    other: Map<(sql::SqlValue, sql::SqlValue), Seq<sql::SqlValue>>,
    rows: Seq<Seq<sql::SqlValue>>,
    key: (sql::SqlValue, sql::SqlValue),
)
    ensures
        has_key(rows, key) ==> {
            &&& written(table, rows).dom().contains(key)
            &&& written(other, rows).dom().contains(key)
            &&& written(table, rows)[key] == written(other, rows)[key]
        },
        !has_key(rows, key) ==> {
            &&& written(table, rows).dom().contains(key) <==> table.dom().contains(key)
            &&& table.dom().contains(key) ==> written(table, rows)[key] == table[key]
        },
    decreases rows.len(),
{
    if rows.len() > 0 {
        let rest = rows.drop_last();
        lemma_written_at(table, other, rest, key);
        if row_key(rows.last()) == key {
            assert(row_key(rows[rows.len() - 1]) == key);
        }
        if has_key(rest, key) {
            let i = choose|i: int| 0 <= i < rest.len() && row_key(#[trigger] rest[i]) == key;
            assert(row_key(rows[i]) == key);
        }
        if has_key(rows, key) && row_key(rows.last()) != key {
            let i = choose|i: int| 0 <= i < rows.len() && row_key(#[trigger] rows[i]) == key;
            assert(row_key(rest[i]) == key);
        }
    }
}

/// Figures that are written a second time change nothing.
pub proof fn law_upsert_is_idempotent(
    table: Map<(sql::SqlValue, sql::SqlValue), Seq<sql::SqlValue>>,
    aggs: Seq<HourlyDetailGroupAgg>,
)
    ensures
        ({
            let rows = upsert_batch(aggs).rows;
            written(written(table, rows), rows) == written(table, rows)
        }),
{
    let rows = upsert_batch(aggs).rows;
    let once = written(table, rows);
    let twice = written(once, rows);
    assert forall|key: (sql::SqlValue, sql::SqlValue)| #[trigger]
        twice.dom().contains(key) <==> once.dom().contains(key) by {
        lemma_written_at(once, table, rows, key);
        lemma_written_at(table, once, rows, key);
    }
    assert forall|key: (sql::SqlValue, sql::SqlValue)|
        once.dom().contains(key) implies #[trigger] twice[key] == once[key] by {
        lemma_written_at(once, table, rows, key);
        lemma_written_at(table, once, rows, key);
    }
    assert(twice =~= once);
}

/// A row of the table holds the values.
pub open spec fn holds_values(row: StoredRow, v: Seq<sql::SqlValue>) -> bool {
    &&& row.query_count is Some
    &&& row.cached_count is Some
    &&& row.blocked_count is Some
    &&& row.cached_time_sum is Some
    &&& row.cached_time_count is Some
    &&& row.uncached_time_sum is Some
    &&& row.uncached_time_count is Some
    &&& v == seq![
        sql::SqlValue::Integer(row.hour_timestamp as int),
        sql::SqlValue::Text(row.domain_group@),
        sql::SqlValue::Integer(row.query_count->0 as int),
        sql::SqlValue::Integer(row.cached_count->0 as int),
        sql::SqlValue::Integer(row.blocked_count->0 as int),
        sql::SqlValue::Real(row.cached_time_sum->0),
        sql::SqlValue::Integer(row.cached_time_count->0 as int),
        sql::SqlValue::Real(row.uncached_time_sum->0),
        sql::SqlValue::Integer(row.uncached_time_count->0 as int),
    ]
}

/// Figures that are read from a row are those that were written to it; numbers
/// above the largest signed one are not kept.
pub proof fn law_stored_figures_are_read_back(a: HourlyDetailGroupAgg, row: StoredRow)
    requires
        holds_values(row, agg_values(a)),
        a.hour_timestamp <= i64::MAX,
        a.query_count <= i64::MAX,
        a.cached_count <= i64::MAX,
        a.blocked_count <= i64::MAX,
        a.cached_time_count <= i64::MAX,
        a.uncached_time_count <= i64::MAX,
    ensures
        ({
            let r = window::row_figures(row);
            &&& r.domain_group@ == a.domain_group@
            &&& r == (HourlyDetailGroupAgg { domain_group: r.domain_group, ..a })
        }),
{
    let v = agg_values(a);
    assert(v[0] == sql::SqlValue::Integer(row.hour_timestamp as int));
    assert(v[1] == sql::SqlValue::Text(row.domain_group@));
    assert(v[2] == sql::SqlValue::Integer(row.query_count->0 as int));
    assert(v[3] == sql::SqlValue::Integer(row.cached_count->0 as int));
    assert(v[4] == sql::SqlValue::Integer(row.blocked_count->0 as int));
    assert(v[5] == sql::SqlValue::Real(row.cached_time_sum->0));
    assert(v[6] == sql::SqlValue::Integer(row.cached_time_count->0 as int));
    assert(v[7] == sql::SqlValue::Real(row.uncached_time_sum->0));
    assert(v[8] == sql::SqlValue::Integer(row.uncached_time_count->0 as int));
}

} // verus!
