//! The window of an hourly report: where it begins, which hours are read from
//! the stored summaries, and which spans are read from the query log itself.

use std::collections::HashMap;

use vstd::prelude::*;

use crate::db;
use crate::db::DB;
use crate::detail::HourlyDetailGroupAgg;
use crate::error::DbError;
use crate::hourly;
use crate::hourly::HOURLY_DETAIL_HOUR_MS;
use crate::report;
use crate::sql;
use crate::sql::{SqlParam, Statement};
use crate::text;

verus! {

/// Reads the summaries of finished hours.
pub const HOURLY_DETAIL_STORED_SQL: &'static str =
    "SELECT hour_timestamp, domain_group, query_count, cached_count, blocked_count, cached_time_sum, cached_time_count, uncached_time_sum, uncached_time_count FROM domain_hourly_detail WHERE hour_timestamp >= ?1 AND hour_timestamp < ?2";

/// Reads the query log of a span of time.
pub const HOURLY_DETAIL_SCAN_SQL: &'static str =
    "SELECT timestamp, domain_group, is_cached, is_blocked, query_time FROM domain WHERE timestamp >= ?1 AND timestamp < ?2";

/// The window of a report.
#[derive(Debug, Clone, Copy)]
pub struct ReportWindow {
    /// The first instant of the window.
    pub window_start: u64,
    /// The local hour in which the window begins.
    pub boundary_hour: u64,
    /// The local hour that has not ended.
    pub current_hour: u64,
    /// The first hour that may be read from the summaries.
    pub stored_from: u64,
}

/// The start of the window that was asked for, cut down to full seconds.
pub open spec fn asked_start(now_ms: u64, past_hours: u32) -> u64 {
    let now_sec_ms = now_ms / 1000 * 1000;
    if now_sec_ms >= HOURLY_DETAIL_HOUR_MS * past_hours {
        (now_sec_ms - HOURLY_DETAIL_HOUR_MS * past_hours) as u64
    } else {
        0
    }
}

/// The start of the window: not before the oldest row of the log.
pub open spec fn window_start(now_ms: u64, past_hours: u32, detail_min: i64) -> u64 {
    if detail_min > asked_start(now_ms, past_hours) {
        detail_min as u64
    } else {
        asked_start(now_ms, past_hours)
    }
}

/// The hour behind `hour`; the last 64-bit number where there is none.
pub open spec fn next_hour(hour: u64) -> u64 {
    if hour + HOURLY_DETAIL_HOUR_MS <= u64::MAX {
        (hour + HOURLY_DETAIL_HOUR_MS) as u64
    } else {
        u64::MAX
    }
}

/// The window that begins at `start`.
pub open spec fn window_from(now_ms: u64, local_offset_secs: i64, start: u64) -> ReportWindow {
    let boundary_hour = hourly::hour_start(start, local_offset_secs);
    let current_hour = hourly::hour_start(now_ms, local_offset_secs);
    ReportWindow {
        window_start: start,
        boundary_hour,
        current_hour,
        stored_from: if boundary_hour < current_hour {
            next_hour(boundary_hour)
        } else {
            current_hour
        },
    }
}

/// The window of a report; none where the log holds no row with a time after 1970.
pub open spec fn window_of(
    now_ms: u64,
    local_offset_secs: i64,
    past_hours: u32,
    detail_min: Option<i64>,
) -> Option<ReportWindow> {
    match detail_min {
        Some(v) if v > 0 => Some(
            window_from(now_ms, local_offset_secs, window_start(now_ms, past_hours, v)),
        ),
        _ => None,
    }
}

/// The hours of the window can be computed.
pub open spec fn window_in_range(
    now_ms: u64,
    local_offset_secs: i64,
    past_hours: u32,
    detail_min: Option<i64>,
) -> bool {
    &&& hourly::hour_start_in_range(now_ms, local_offset_secs)
    &&& detail_min matches Some(v) ==> v > 0 ==> hourly::hour_start_in_range(
        window_start(now_ms, past_hours, v),
        local_offset_secs,
    )
}

/// The spans of the window end before the last 64-bit number.
pub open spec fn spans_in_range(w: ReportWindow) -> bool {
    &&& w.boundary_hour < w.current_hour ==> w.boundary_hour + HOURLY_DETAIL_HOUR_MS <= u64::MAX
    &&& w.stored_from < w.current_hour ==> hourly::grid_end(w.stored_from, w.current_hour)
        <= u64::MAX
}

fn asked_window_start(now_ms: u64, past_hours: u32) -> (r: u64)
    ensures
        r == asked_start(now_ms, past_hours),
{
    let now_sec_ms: u64 = now_ms / 1000 * 1000;
    let span: u64 = HOURLY_DETAIL_HOUR_MS * past_hours as u64;
    now_sec_ms.saturating_sub(span)
}

fn clamped_window_start(now_ms: u64, past_hours: u32, detail_min: i64) -> (r: u64)
    requires
        detail_min > 0,
    ensures
        r == window_start(now_ms, past_hours, detail_min),
{
    let start: u64 = asked_window_start(now_ms, past_hours);
    let oldest: u64 = detail_min as u64;
    if oldest > start {
        oldest
    } else {
        start
    }
}

/// Tells whether the hours of a window can be computed.
pub fn report_window_fits(
    now_ms: u64,
    local_offset_secs: i64,
    past_hours: u32,
    detail_min: Option<i64>,
) -> (r: bool)
    ensures
        r == window_in_range(now_ms, local_offset_secs, past_hours, detail_min),
{
    hourly::local_hour_start_fits(now_ms, local_offset_secs) && match detail_min {
        Some(v) => v <= 0 || hourly::local_hour_start_fits(
            clamped_window_start(now_ms, past_hours, v),
            local_offset_secs,
        ),
        None => true,
    }
}

/// Computes the window of a report on the last `past_hours` hours, given the
/// time of the oldest row of the log.
pub fn report_window(
    now_ms: u64,
    local_offset_secs: i64,
    past_hours: u32,
    detail_min: Option<i64>,
) -> (r: Option<ReportWindow>)
    requires
        window_in_range(now_ms, local_offset_secs, past_hours, detail_min),
    ensures
        r == window_of(now_ms, local_offset_secs, past_hours, detail_min),
{
    let current_hour: u64 = hourly::local_hour_start_ms(now_ms, local_offset_secs);
    let oldest: i64 = match detail_min {
        Some(v) => v,
        None => 0,
    };
    if oldest <= 0 {
        return None;
    }
    let window_start: u64 = clamped_window_start(now_ms, past_hours, oldest);
    let boundary_hour: u64 = hourly::local_hour_start_ms(window_start, local_offset_secs);
    let stored_from: u64 = if boundary_hour < current_hour {
        boundary_hour.saturating_add(HOURLY_DETAIL_HOUR_MS)
    } else {
        current_hour
    };
    Some(ReportWindow { window_start, boundary_hour, current_hour, stored_from })
}

impl DB {
    /// The first statement of an hourly report: it finds the time of the oldest
    /// row of the log, which [`report_window`] asks for.
    pub fn get_hourly_detail(&self) -> (r: Result<Statement, DbError>)
        ensures
            db::planned(*self, r, sql::bare("SELECT MIN(timestamp) FROM domain"@)),
    {
        self.when_open(sql::bare_statement("SELECT MIN(timestamp) FROM domain"))
    }
}

/// Formats an hour in local time.
pub const LOCAL_HOUR_SQL: &'static str =
    "SELECT strftime('%Y-%m-%d %H:00:00', datetime(?1 / 1000, 'unixepoch', 'localtime'))";

/// The statement that formats an hour in local time.
pub fn format_local_hour(hour_timestamp: u64) -> (r: Statement)
    ensures
        r@ == db::one_value(
            LOCAL_HOUR_SQL@,
            sql::SqlValue::Integer(hourly::signed(hour_timestamp)),
        ),
{
    sql::unary_statement(LOCAL_HOUR_SQL, SqlParam::Integer(hourly::as_signed(hour_timestamp)))
}

/// The name of an hour: what the statement gave, or nothing.
pub fn local_hour_text(found: Option<String>) -> (r: String)
    ensures
        r@ == match found {
            Some(s) => s@,
            None => Seq::empty(),
        },
{
    match found {
        Some(s) => s,
        None => String::new(),
    }
}

/// The statement that has a row exactly where the table of summaries exists.
pub fn hourly_detail_table_query() -> (r: Statement)
    ensures
        r@ == sql::bare(
            "SELECT 1 FROM sqlite_master WHERE type = 'table' AND name = 'domain_hourly_detail'"@,
        ),
{
    sql::bare_statement(
        "SELECT 1 FROM sqlite_master WHERE type = 'table' AND name = 'domain_hourly_detail'",
    )
}

/// A statement on the span from `a` to `b`, as signed numbers.
pub open spec fn span_command(sql: Seq<char>, a: int, b: int) -> sql::Command {
    sql::Command { sql, params: seq![sql::SqlValue::Integer(a), sql::SqlValue::Integer(b)] }
}

/// The statement that reads the log of a span; the largest signed number
/// stands for an end above it.
pub open spec fn scan_command(start_ms: u64, end_ms: u64) -> sql::Command {
    span_command(
        HOURLY_DETAIL_SCAN_SQL@,
        hourly::signed(start_ms),
        if end_ms <= i64::MAX {
            end_ms as int
        } else {
            i64::MAX as int
        },
    )
}

/// Builds the statement that reads the log of a span.
pub fn hourly_detail_scan_query(start_ms: u64, end_ms: u64) -> (r: Statement)
    ensures
        r@ == scan_command(start_ms, end_ms),
{
    let scan_end: i64 = if end_ms <= i64::MAX as u64 {
        end_ms as i64
    } else {
        i64::MAX
    };
    sql::binary_statement(
        HOURLY_DETAIL_SCAN_SQL,
        SqlParam::Integer(hourly::as_signed(start_ms)),
        SqlParam::Integer(scan_end),
    )
}

/// The ends of a span as decimal numbers.
pub fn span_texts(start_ms: u64, end_ms: u64) -> (r: Vec<String>)
    ensures
        text::texts(r@) == seq![text::decimal(start_ms as nat), text::decimal(end_ms as nat)],
{
    let mut r: Vec<String> = Vec::new();
    r.push(text::decimal_text(start_ms));
    r.push(text::decimal_text(end_ms));
    assert(text::texts(r@) =~= seq![text::decimal(start_ms as nat), text::decimal(end_ms as nat)]);
    r
}

/// The spans of a list that hold an instant.
pub open spec fn not_empty() -> spec_fn((u64, u64)) -> bool {
    |span: (u64, u64)| span.0 < span.1
}

impl ReportWindow {
    /// Tells whether the spans of the window end before the last 64-bit number.
    pub fn spans_fit(&self) -> (r: bool)
        ensures
            r == spans_in_range(*self),
    {
        if self.boundary_hour < self.current_hour && self.boundary_hour > u64::MAX
            - HOURLY_DETAIL_HOUR_MS {
            return false;
        }
        if self.stored_from < self.current_hour {
            let hours: u64 = (self.current_hour - self.stored_from - 1) / HOURLY_DETAIL_HOUR_MS;
            let last: u64 = self.stored_from + hours * HOURLY_DETAIL_HOUR_MS;
            assert(hourly::grid_end(self.stored_from, self.current_hour) == last
                + HOURLY_DETAIL_HOUR_MS);
            return last <= u64::MAX - HOURLY_DETAIL_HOUR_MS;
        }
        true
    }

    /// The statement that reads the summaries of the window; none where there
    /// is no table of summaries, or no finished hour in the window.
    pub fn stored_query(&self, table_exists: bool) -> (r: Option<Statement>)
        ensures
            match r {
                Some(s) => table_exists && self.stored_from < self.current_hour && s@
                    == span_command(
                    HOURLY_DETAIL_STORED_SQL@,
                    hourly::signed(self.stored_from),
                    hourly::signed(self.current_hour),
                ),
                None => !(table_exists && self.stored_from < self.current_hour),
            },
    {
        if table_exists && self.stored_from < self.current_hour {
            Some(
                sql::binary_statement(
                    HOURLY_DETAIL_STORED_SQL,
                    SqlParam::Integer(hourly::as_signed(self.stored_from)),
                    SqlParam::Integer(hourly::as_signed(self.current_hour)),
                ),
            )
        } else {
            None
        }
    }

    /// The spans that are always read from the log.
    pub fn live_spans(&self) -> (r: Vec<(u64, u64)>)
        requires
            spans_in_range(*self),
        ensures
            r@ == hourly::live_ranges(
                self.boundary_hour,
                self.current_hour,
                self.window_start,
            ).filter(not_empty()),
    {
        let all = hourly::hourly_detail_live_ranges(
            self.boundary_hour,
            self.current_hour,
            self.window_start,
        );
        let mut r: Vec<(u64, u64)> = Vec::new();
        let mut i: usize = 0;
        assert(all@.take(0).filter(not_empty()) =~= Seq::<(u64, u64)>::empty()) by {
            reveal(Seq::filter);
        }
        while i < all.len()
            invariant
                i <= all@.len(),
                r@ == all@.take(i as int).filter(not_empty()),
            decreases all@.len() - i,
        {
            proof {
                reveal(Seq::filter);
                assert(all@.take(i + 1).drop_last() =~= all@.take(i as int));
            }
            let span = all[i];
            if span.0 < span.1 {
                r.push(span);
            }
            i += 1;
        }
        assert(all@.take(all@.len() as int) =~= all@);
        r
    }

    /// The finished hours of the window of which `hours` has no figures yet;
    /// they are read from the log.
    pub fn missing_spans(&self, hours: &HashMap<u64, Vec<HourlyDetailGroupAgg>>) -> (r: Vec<
        (u64, u64),
    >)
        requires
            spans_in_range(*self),
        ensures
            self.stored_from < self.current_hour ==> hourly::are_missing_ranges(
                r@,
                hours@.dom(),
                self.stored_from,
                self.current_hour,
            ),
            self.stored_from >= self.current_hour ==> r@.len() == 0,
    {
        if self.stored_from < self.current_hour {
            hourly::missing_hour_ranges(&report::hours_with_figures(hours), self.stored_from, self.current_hour)
        } else {
            Vec::new()
        }
    }
}

/// One row of the table of summaries.
#[derive(Debug)]
pub struct StoredRow {
    pub hour_timestamp: i64,
    pub domain_group: String,
    pub query_count: Option<i64>,
    pub cached_count: Option<i64>,
    pub blocked_count: Option<i64>,
    /// A sum of times, as a bit pattern.
    pub cached_time_sum: Option<u64>,
    pub cached_time_count: Option<i64>,
    /// A sum of times, as a bit pattern.
    pub uncached_time_sum: Option<u64>,
    pub uncached_time_count: Option<i64>,
}

/// A stored number; zero where none is stored, or one below zero.
pub open spec fn natural(v: Option<i64>) -> u64 {
    match v {
        Some(n) if n > 0 => n as u64,
        _ => 0,
    }
}

/// The figures of a row of the table.
pub open spec fn row_figures(row: StoredRow) -> HourlyDetailGroupAgg {
    HourlyDetailGroupAgg {
        hour_timestamp: natural(Some(row.hour_timestamp)),
        domain_group: row.domain_group,
        query_count: natural(row.query_count),
        cached_count: natural(row.cached_count),
        blocked_count: natural(row.blocked_count),
        cached_time_sum: match row.cached_time_sum {
            Some(t) => t,
            None => 0,
        },
        cached_time_count: natural(row.cached_time_count),
        uncached_time_sum: match row.uncached_time_sum {
            Some(t) => t,
            None => 0,
        },
        uncached_time_count: natural(row.uncached_time_count),
    }
}

fn to_natural(v: Option<i64>) -> (r: u64)
    ensures
        r == natural(v),
{
    match v {
        Some(n) => if n > 0 {
            n as u64
        } else {
            0
        },
        None => 0,
    }
}

fn time_or_zero(v: Option<u64>) -> (r: u64)
    ensures
        r == (match v {
            Some(t) => t,
            None => 0,
        }),
{
    match v {
        Some(t) => t,
        None => 0,
    }
}

/// Reads the figures of a row of the table of summaries.
pub fn stored_figures(row: StoredRow) -> (r: HourlyDetailGroupAgg)
    ensures
        r == row_figures(row),
{
    HourlyDetailGroupAgg {
        hour_timestamp: to_natural(Some(row.hour_timestamp)),
        domain_group: row.domain_group,
        query_count: to_natural(row.query_count),
        cached_count: to_natural(row.cached_count),
        blocked_count: to_natural(row.blocked_count),
        cached_time_sum: time_or_zero(row.cached_time_sum),
        cached_time_count: to_natural(row.cached_time_count),
        uncached_time_sum: time_or_zero(row.uncached_time_sum),
        uncached_time_count: to_natural(row.uncached_time_count),
    }
}

/// Reads the figures of all rows.
pub fn stored_aggs(rows: Vec<StoredRow>) -> (r: Vec<HourlyDetailGroupAgg>)
    ensures
        r@ == Seq::new(rows@.len(), |i: int| row_figures(rows@[i])),
{
    let ghost all = rows@;
    let mut r: Vec<HourlyDetailGroupAgg> = Vec::new();
    for row in it: rows
        invariant
            it.seq() == all,
            r@ == Seq::new(it.index() as nat, |i: int| row_figures(all[i])),
    {
        let ghost held = r@;
        r.push(stored_figures(row));
        assert(r@ =~= Seq::new((it.index() + 1) as nat, |i: int| row_figures(all[i])));
    }
    r
}

/// The window of a report can be computed, and its spans end in time, for every
/// offset of a time zone and every present that is not within days of the
/// largest signed number.
pub proof fn law_windows_can_be_computed(
    now_ms: u64,
    local_offset_secs: i64,
    past_hours: u32,
    detail_min: Option<i64>,
)
    requires
        now_ms <= 0x7fff_ffff_0000_0000,
        detail_min matches Some(oldest) ==> oldest <= now_ms,
        -1_000_000 <= local_offset_secs <= 1_000_000,
    ensures
        window_in_range(now_ms, local_offset_secs, past_hours, detail_min),
        window_of(now_ms, local_offset_secs, past_hours, detail_min) is Some <==> (
        detail_min matches Some(oldest) && oldest > 0),
        window_of(now_ms, local_offset_secs, past_hours, detail_min) matches Some(w) ==> (
        w.boundary_hour <= i64::MAX ==> spans_in_range(w)),
{
    hourly::law_hours_can_be_computed(now_ms, local_offset_secs);
    if detail_min is Some && detail_min->0 > 0 {
        let start = window_start(now_ms, past_hours, detail_min->0);
        hourly::law_hours_can_be_computed(start, local_offset_secs);
    }
}

} // verus!
