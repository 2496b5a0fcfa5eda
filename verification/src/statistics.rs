//! Top lists, and the numbers of queries by day and by hour.

use vstd::prelude::*;
use vstd::string::*;

use crate::db;
use crate::db::DB;
use crate::error::DbError;
use crate::model::{DailyQueryCount, DailyQueryCountItem, HourlyQueryCount, HourlyQueryCountItem};
use crate::rows;
use crate::sql;
use crate::sql::{SqlParam, Statement};
use crate::text;

verus! {

/// Fills the list of the clients with the most queries.
pub const FILL_TOP_CLIENTS_SQL: &'static str =
    "INSERT INTO top_client_list (client, count, timestamp_start, timestamp_end)
             SELECT 
                 client,
                 COUNT(*),
                 ?1,
                 ?2
             FROM domain
             WHERE timestamp >= ?1
             GROUP BY client
             ORDER BY COUNT(*) DESC
             LIMIT 20";

/// Fills the list of the domains with the most queries.
pub const FILL_TOP_DOMAINS_SQL: &'static str =
    "INSERT INTO top_domain_list (domain, count, timestamp_start, timestamp_end)
               SELECT 
               domain,
               COUNT(*),
               ?1,
               ?2
             FROM domain
             WHERE timestamp >= ?1
             GROUP BY domain
             ORDER BY COUNT(*) DESC
             LIMIT 20";

/// Reads the first clients of the top list.
pub const TOP_CLIENTS_SQL: &'static str =
    "SELECT client, count, timestamp_start, timestamp_end FROM top_client_list ORDER BY count DESC LIMIT ?";

/// Reads the first domains of the top list, in the order of the table.
pub const TOP_DOMAINS_SQL: &'static str =
    "SELECT domain, count, timestamp_start, timestamp_end FROM top_domain_list DESC LIMIT ?";

/// Reads the number of queries of each of the last days.
pub const DAILY_QUERY_COUNT_SQL: &'static str =
    "SELECT strftime('%Y-%m-%d', datetime(timestamp / 1000, 'unixepoch', 'localtime')) AS date, timestamp, count FROM domain_daily_count WHERE timestamp >= strftime('%s', 'now') * 1000 - ? * 1000 ORDER BY timestamp DESC;";

/// Reads the number of queries of each of the last hours.
pub const HOURLY_QUERY_COUNT_SQL: &'static str =
    "SELECT strftime('%Y-%m-%d %H:00:00', datetime(timestamp / 1000, 'unixepoch', 'localtime')) AS hour, timestamp, count FROM domain_hourly_count WHERE timestamp >= strftime('%s', 'now') * 1000 - ? * 1000 ORDER BY timestamp DESC;";

/// What is run, in one transaction, to make a top list anew: it is cleared,
/// filled from the log, and read back.
#[derive(Debug)]
pub struct TopListRefresh {
    pub clear: Statement,
    pub fill: Statement,
    pub read: Statement,
}

/// The refresh of a top list on the log from `timestamp` on.
pub open spec fn is_refresh(
    r: TopListRefresh,
    clear: Seq<char>,
    fill: Seq<char>,
    read: Seq<char>,
    timestamp: u64,
    timestamp_now: u64,
) -> bool {
    &&& r.clear@ == sql::bare(clear)
    &&& r.fill@ == db::two_values(
        fill,
        sql::SqlValue::Unsigned(timestamp as nat),
        sql::SqlValue::Unsigned(timestamp_now as nat),
    )
    &&& r.read@ == sql::bare(read)
}

/// The span that a number of days or hours back from the end of this hour
/// reaches into the past, in seconds.
pub open spec fn past_seconds(unit: u32, count: u32, until_next_hour: u32) -> int {
    unit * count - until_next_hour
}

/// The steps to that span stay within 32 bits.
pub open spec fn past_seconds_in_range(unit: u32, count: u32, until_next_hour: u32) -> bool {
    unit * count <= u32::MAX && past_seconds(unit, count, until_next_hour) >= 0
}

fn past_span(unit: u32, count: u32, until_next_hour: u32) -> (r: Option<u32>)
    ensures
        match r {
            Some(n) => past_seconds_in_range(unit, count, until_next_hour) && n == past_seconds(
                unit,
                count,
                until_next_hour,
            ),
            None => !past_seconds_in_range(unit, count, until_next_hour),
        },
{
    match unit.checked_mul(count) {
        Some(n) => n.checked_sub(until_next_hour),
        None => None,
    }
}

/// A query over the span; none where the span cannot be computed.
pub open spec fn spans_past(
    db: DB,
    r: Result<Option<Statement>, DbError>,
    sql: Seq<char>,
    unit: u32,
    count: u32,
    until_next_hour: u32,
) -> bool {
    match r {
        Ok(Some(s)) => db.is_open && past_seconds_in_range(unit, count, until_next_hour) && s@
            == db::one_value(
            sql,
            sql::SqlValue::Text(
                text::decimal(past_seconds(unit, count, until_next_hour) as nat),
            ),
        ),
        Ok(None) => db.is_open && !past_seconds_in_range(unit, count, until_next_hour),
        Err(e) => !db.is_open && e == DbError::NotOpen,
    }
}

impl DB {
    /// What makes the list of the clients with the most queries anew.
    pub fn refresh_client_top_list(&self, timestamp: u64, timestamp_now: u64) -> (r: Result<
        TopListRefresh,
        DbError,
    >)
        ensures
            match r {
                Ok(t) => self.is_open && is_refresh(
                    t,
                    "DELETE FROM top_client_list"@,
                    FILL_TOP_CLIENTS_SQL@,
                    "SELECT client, count FROM top_client_list ORDER BY count DESC"@,
                    timestamp,
                    timestamp_now,
                ),
                Err(e) => !self.is_open && e == DbError::NotOpen,
            },
    {
        if !self.is_open {
            return Err(DbError::NotOpen);
        }
        Ok(
            TopListRefresh {
                clear: sql::bare_statement("DELETE FROM top_client_list"),
                fill: sql::binary_statement(
                    FILL_TOP_CLIENTS_SQL,
                    SqlParam::Unsigned(timestamp),
                    SqlParam::Unsigned(timestamp_now),
                ),
                read: sql::bare_statement(
                    "SELECT client, count FROM top_client_list ORDER BY count DESC",
                ),
            },
        )
    }

    /// What makes the list of the domains with the most queries anew.
    pub fn refresh_domain_top_list(&self, timestamp: u64, timestamp_now: u64) -> (r: Result<
        TopListRefresh,
        DbError,
    >)
        ensures
            match r {
                Ok(t) => self.is_open && is_refresh(
                    t,
                    "DELETE FROM top_domain_list"@,
                    FILL_TOP_DOMAINS_SQL@,
                    "SELECT domain, count FROM top_domain_list ORDER BY count DESC"@,
                    timestamp,
                    timestamp_now,
                ),
                Err(e) => !self.is_open && e == DbError::NotOpen,
            },
    {
        if !self.is_open {
            return Err(DbError::NotOpen);
        }
        Ok(
            TopListRefresh {
                clear: sql::bare_statement("DELETE FROM top_domain_list"),
                fill: sql::binary_statement(
                    FILL_TOP_DOMAINS_SQL,
                    SqlParam::Unsigned(timestamp),
                    SqlParam::Unsigned(timestamp_now),
                ),
                read: sql::bare_statement(
                    "SELECT domain, count FROM top_domain_list ORDER BY count DESC",
                ),
            },
        )
    }

    /// The statement that reads the first clients of the top list.
    pub fn get_client_top_list(&self, count: u32) -> (r: Result<Statement, DbError>)
        ensures
            db::planned(
                *self,
                r,
                db::one_value(
                    TOP_CLIENTS_SQL@,
                    sql::SqlValue::Text(text::decimal(count as nat)),
                ),
            ),
    {
        self.when_open(
            sql::unary_statement(
                TOP_CLIENTS_SQL,
                SqlParam::Text(text::decimal_text(count as u64)),
            ),
        )
    }

    /// The statement that reads the first domains of the top list, in the order
    /// of the table.
    pub fn get_domain_top_list(&self, count: u32) -> (r: Result<Statement, DbError>)
        ensures
            db::planned(
                *self,
                r,
                db::one_value(
                    TOP_DOMAINS_SQL@,
                    sql::SqlValue::Text(text::decimal(count as nat)),
                ),
            ),
    {
        self.when_open(
            sql::unary_statement(
                TOP_DOMAINS_SQL,
                SqlParam::Text(text::decimal_text(count as u64)),
            ),
        )
    }

    /// The statement that reads the number of queries of each of the last days;
    /// none where the days cannot be counted in seconds.
    pub fn get_daily_query_count(&self, past_days: u32, until_next_hour: u32) -> (r: Result<
        Option<Statement>,
        DbError,
    >)
        ensures
            spans_past(*self, r, DAILY_QUERY_COUNT_SQL@, 86400, past_days, until_next_hour),
    {
        if !self.is_open {
            return Err(DbError::NotOpen);
        }
        match past_span(86400, past_days, until_next_hour) {
            Some(seconds) => Ok(
                Some(
                    sql::unary_statement(
                        DAILY_QUERY_COUNT_SQL,
                        SqlParam::Text(text::decimal_text(seconds as u64)),
                    ),
                ),
            ),
            None => Ok(None),
        }
    }

    /// The statement that reads the number of queries of each of the last
    /// hours; none where the hours cannot be counted in seconds.
    pub fn get_hourly_query_count(&self, past_hours: u32, until_next_hour: u32) -> (r: Result<
        Option<Statement>,
        DbError,
    >)
        ensures
            spans_past(*self, r, HOURLY_QUERY_COUNT_SQL@, 3600, past_hours, until_next_hour),
    {
        if !self.is_open {
            return Err(DbError::NotOpen);
        }
        match past_span(3600, past_hours, until_next_hour) {
            Some(seconds) => Ok(
                Some(
                    sql::unary_statement(
                        HOURLY_QUERY_COUNT_SQL,
                        SqlParam::Text(text::decimal_text(seconds as u64)),
                    ),
                ),
            ),
            None => Ok(None),
        }
    }
}

/// Puts the numbers of queries by day together.
pub fn daily_query_count(query_timestamp: u64, found: Vec<Option<DailyQueryCountItem>>) -> (r:
    DailyQueryCount)
    ensures
        r.query_timestamp == query_timestamp,
        r.daily_query_count@ == rows::readable(found@),
{
    DailyQueryCount { query_timestamp, daily_query_count: rows::keep_readable(found) }
}

/// Puts the numbers of queries by hour together.
pub fn hourly_query_count(query_timestamp: u64, found: Vec<Option<HourlyQueryCountItem>>) -> (r:
    HourlyQueryCount)
    ensures
        r.query_timestamp == query_timestamp,
        r.hourly_query_count@ == rows::readable(found@),
{
    HourlyQueryCount { query_timestamp, hourly_query_count: rows::keep_readable(found) }
}

} // verus!
