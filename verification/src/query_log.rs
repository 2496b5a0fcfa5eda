//! Adding rows to the query log, and the counts by hour and by day that are
//! kept beside it.

use std::collections::HashMap;

use vstd::prelude::*;
use vstd::string::*;

use crate::db::DB;
use crate::error::DbError;
use crate::filters;
use crate::hourly;
use crate::model::DomainData;
use crate::sql;
use crate::sql::{Batch, SqlParam};
use crate::text;

verus! {

/// The milliseconds of a day.
pub const DAY_MS: u64 = 86_400_000;

/// Adds a row to the log.
pub const INSERT_DOMAIN_SQL: &'static str =
    "INSERT INTO domain (timestamp, domain, domain_type, client, domain_group, reply_code, query_time, ping_time, is_blocked, is_cached) VALUES (?1, ?2, ?3, ?4, ?5, ?6, ?7, ?8, ?9, ?10)";

/// Adds to the count of an hour.
pub const HOURLY_COUNT_SQL: &'static str =
    "INSERT INTO domain_hourly_count (timestamp, count)
                 VALUES (
                    ?1,
                    ?2
                )
                ON CONFLICT(timestamp) DO UPDATE SET count = count + ?2;";

/// Adds to the count of a day.
pub const DAILY_COUNT_SQL: &'static str =
    "INSERT INTO domain_daily_count (timestamp, count)
                 VALUES (
                    ?1,
                    ?2
                )
                ON CONFLICT(timestamp) DO UPDATE SET count = count + ?2;";

/// The start of the local hour or day of an instant, with the numbers wrapped
/// to 64 bits: shift to local time, round down, shift back.
pub open spec fn bucket(timestamp: u64, local_offset_secs: i32, span_ms: u64) -> u64 {
    let local = hourly::unsigned(timestamp + local_offset_secs * 1000);
    hourly::unsigned(local - local % span_ms - local_offset_secs * 1000)
}

/// How often a number occurs.
pub open spec fn occurrences(s: Seq<u64>, x: u64) -> nat
    decreases s.len(),
{
    if s.len() == 0 {
        0
    } else {
        occurrences(s.drop_last(), x) + if s.last() == x {
            1nat
        } else {
            0nat
        }
    }
}

/// The counts of the numbers that occur: how often each of them does.
pub open spec fn is_tally(m: Map<u64, u32>, s: Seq<u64>) -> bool {
    forall|x: u64|
        #![trigger m.contains_key(x)]
        #![trigger occurrences(s, x)]
        (m.contains_key(x) <==> occurrences(s, x) > 0) && (m.contains_key(x) ==> m[x]
            == occurrences(s, x))
}

proof fn lemma_occurrences(s: Seq<u64>, x: u64)
    ensures
        occurrences(s, x) <= s.len(),
        occurrences(s, x) > 0 <==> s.contains(x),
    decreases s.len(),
{
    if s.len() > 0 {
        let rest = s.drop_last();
        lemma_occurrences(rest, x);
        assert(s[s.len() - 1] == s.last());
        if rest.contains(x) {
            let k = choose|k: int| 0 <= k < rest.len() && rest[k] == x;
            assert(s[k] == x);
        }
        if s.contains(x) && s.last() != x {
            let k = choose|k: int| 0 <= k < s.len() && s[k] == x;
            assert(rest[k] == x);
        }
    }
}

/// Counts one more number.
fn tally(counts: &mut HashMap<u64, u32>, x: u64, Ghost(s): Ghost<Seq<u64>>)
    requires
        is_tally(old(counts)@, s),
        s.len() < u32::MAX,
    ensures
        is_tally(final(counts)@, s.push(x)),
{
    broadcast use vstd::std_specs::hash::group_hash_axioms;

    let ghost before = counts@;
    proof {
        lemma_occurrences(s, x);
        assert(before.contains_key(x) ==> before[x] == occurrences(s, x));
    }
    let count = counts.entry(x).or_insert(0);
    *count = *count + 1;
    proof {
        let now = s.push(x);
        assert(now.drop_last() =~= s);
        assert forall|y: u64|
            #![trigger counts@.contains_key(y)]
            #![trigger occurrences(now, y)]
            (counts@.contains_key(y) <==> occurrences(now, y) > 0) && (counts@.contains_key(y)
                ==> counts@[y] == occurrences(now, y)) by {
            assert(now.drop_last() =~= s);
            assert(before.contains_key(y) <==> occurrences(s, y) > 0);
        }
    }
}

/// Computes the start of the local hour or day of an instant.
pub fn bucket_start(timestamp: u64, local_offset_secs: i32, span_ms: u64) -> (r: u64)
    requires
        span_ms > 0,
    ensures
        r == bucket(timestamp, local_offset_secs, span_ms),
{
    let offset_ms: i64 = local_offset_secs as i64 * 1000;
    let local: u64 = timestamp.wrapping_add_signed(offset_ms);
    assert(local % span_ms <= local) by (nonlinear_arith)
        requires
            span_ms > 0,
    ;
    let floor: u64 = local - local % span_ms;
    floor.wrapping_sub(hourly::as_unsigned(offset_ms))
}

pub open spec fn flag_value(v: bool) -> sql::SqlValue {
    sql::SqlValue::Integer(
        if v {
            1
        } else {
            0
        },
    )
}

/// The values of a row of the log; the time and the type are bound as texts.
pub open spec fn domain_values(d: DomainData) -> Seq<sql::SqlValue> {
    seq![
        sql::SqlValue::Text(text::decimal(d.timestamp as nat)),
        sql::SqlValue::Text(d.domain@),
        sql::SqlValue::Text(text::decimal(d.domain_type as nat)),
        sql::SqlValue::Text(d.client@),
        sql::SqlValue::Text(d.domain_group@),
        sql::SqlValue::Integer(d.reply_code as int),
        sql::SqlValue::Integer(d.query_time as int),
        sql::SqlValue::Real(d.ping_time),
        flag_value(d.is_blocked),
        flag_value(d.is_cached),
    ]
}

fn flag_param(v: bool) -> (r: SqlParam)
    ensures
        r@ == flag_value(v),
{
    SqlParam::Integer(
        if v {
            1
        } else {
            0
        },
    )
}

fn domain_params(d: &DomainData) -> (r: Vec<SqlParam>)
    ensures
        sql::values(r@) == domain_values(*d),
{
    let mut r: Vec<SqlParam> = Vec::new();
    r.push(SqlParam::Text(text::decimal_text(d.timestamp)));
    r.push(SqlParam::Text(d.domain.clone()));
    r.push(SqlParam::Text(text::decimal_text(d.domain_type as u64)));
    r.push(SqlParam::Text(d.client.clone()));
    r.push(SqlParam::Text(d.domain_group.clone()));
    r.push(SqlParam::Integer(d.reply_code as i64));
    r.push(SqlParam::Integer(d.query_time as i64));
    r.push(SqlParam::Real(d.ping_time));
    r.push(flag_param(d.is_blocked));
    r.push(flag_param(d.is_cached));
    assert(sql::values(r@) =~= domain_values(*d));
    r
}

/// The values that add a count.
pub open spec fn count_values(c: (u64, u32)) -> Seq<sql::SqlValue> {
    seq![sql::SqlValue::Unsigned(c.0 as nat), sql::SqlValue::Integer(c.1 as int)]
}

/// The numbers of a set, each once, in some order.
pub open spec fn is_listing(keys: Seq<u64>, set: Set<u64>) -> bool {
    keys.no_duplicates() && keys.to_set() == set
}

/// The batch adds every count of the map, in some order.
pub open spec fn adds_counts(b: sql::BatchModel, sql: Seq<char>, m: Map<u64, u32>) -> bool {
    &&& b.sql == sql
    &&& exists|keys: Seq<u64>| #[trigger]
        is_listing(keys, m.dom()) && b.rows == Seq::new(
            keys.len(),
            |i: int| count_values((keys[i], m[keys[i]])),
        )
}

fn counts_as_batch(sql: &str, counts: &HashMap<u64, u32>) -> (r: Batch)
    ensures
        adds_counts(r@, sql@, counts@),
{
    broadcast use vstd::std_specs::hash::group_hash_axioms;

    let mut keys: Vec<u64> = Vec::new();
    for key in it: counts.keys()
        invariant
            it.seq().unref().to_set() == counts@.dom(),
            it.seq().no_duplicates(),
            keys@ == it.seq().unref().take(it.index() as int),
            it.index() == it.seq().len() ==> keys@ == it.seq().unref(),
    {
        let ghost all = it.seq().unref();
        keys.push(*key);
        assert(keys@ =~= all.take(it.index() + 1));
        assert(it.index() + 1 == all.len() ==> keys@ =~= all);
    }
    assert(keys@.no_duplicates());
    assert(is_listing(keys@, counts@.dom()));
    let mut rows: Vec<Vec<SqlParam>> = Vec::new();
    let mut i: usize = 0;
    while i < keys.len()
        invariant
            is_listing(keys@, counts@.dom()),
            i <= keys@.len(),
            sql::row_values(rows@) == Seq::new(
                i as nat,
                |k: int| count_values((keys@[k], counts@[keys@[k]])),
            ),
        decreases keys@.len() - i,
    {
        let ghost held = rows@;
        let key: u64 = keys[i];
        assert(keys@.to_set().contains(key));
        let count: u32 = match counts.get(&key) {
            Some(n) => *n,
            None => 0,
        };
        let mut row: Vec<SqlParam> = Vec::new();
        row.push(SqlParam::Unsigned(key));
        row.push(SqlParam::Integer(count as i64));
        assert(sql::values(row@) =~= count_values((key, counts@[key])));
        rows.push(row);
        proof {
            sql::lemma_row_values_push(held, rows@.last());
            assert(sql::row_values(rows@) =~= Seq::new(
                (i + 1) as nat,
                |k: int| count_values((keys@[k], counts@[keys@[k]])),
            ));
        }
        i += 1;
    }
    Batch { sql: sql.to_owned(), rows }
}

/// The start of the local hour or day of each row.
pub open spec fn buckets(data: Seq<DomainData>, local_offset_secs: i32, span_ms: u64) -> Seq<u64> {
    Seq::new(data.len(), |i: int| bucket(data[i].timestamp, local_offset_secs, span_ms))
}

/// The start of the local hour of each row.
pub open spec fn hours_of(data: Seq<DomainData>, local_offset_secs: i32) -> Seq<u64> {
    buckets(data, local_offset_secs, hourly::HOURLY_DETAIL_HOUR_MS)
}

/// The start of the local day of each row.
pub open spec fn days_of(data: Seq<DomainData>, local_offset_secs: i32) -> Seq<u64> {
    buckets(data, local_offset_secs, DAY_MS)
}

/// What is run, in one transaction, to add rows to the log: the rows, the
/// counts of their hours, and the counts of their days.
#[derive(Debug)]
pub struct LogBatches {
    pub rows: Batch,
    pub hourly: Batch,
    pub daily: Batch,
}

/// The batch adds up how often each number occurs.
pub open spec fn adds_occurrences(b: sql::BatchModel, sql: Seq<char>, s: Seq<u64>) -> bool {
    exists|m: Map<u64, u32>| #[trigger] is_tally(m, s) && adds_counts(b, sql, m)
}

impl DB {
    /// The batch that adds to the counts of hours.
    pub fn update_domain_hourly_count(&self, hourly_count: &HashMap<u64, u32>) -> (r: Batch)
        ensures
            adds_counts(r@, HOURLY_COUNT_SQL@, hourly_count@),
    {
        counts_as_batch(HOURLY_COUNT_SQL, hourly_count)
    }

    /// The batch that adds to the counts of days.
    pub fn update_domain_daily_count(&self, daily_count: &HashMap<u64, u32>) -> (r: Batch)
        ensures
            adds_counts(r@, DAILY_COUNT_SQL@, daily_count@),
    {
        counts_as_batch(DAILY_COUNT_SQL, daily_count)
    }

    /// The batches that add rows to the log and to the counts by local hour and
    /// local day.
    pub fn insert_domain(&self, data: &Vec<DomainData>, local_offset_secs: i32) -> (r: Result<
        LogBatches,
        DbError,
    >)
        requires
            data@.len() <= u32::MAX,
        ensures
            match r {
                Ok(b) => {
                    &&& self.is_open
                    &&& b.rows@ == (sql::BatchModel {
                        sql: INSERT_DOMAIN_SQL@,
                        rows: Seq::new(data@.len(), |i: int| domain_values(data@[i])),
                    })
                    &&& adds_occurrences(
                        b.hourly@,
                        HOURLY_COUNT_SQL@,
                        hours_of(data@, local_offset_secs),
                    )
                    &&& adds_occurrences(
                        b.daily@,
                        DAILY_COUNT_SQL@,
                        days_of(data@, local_offset_secs),
                    )
                },
                Err(e) => !self.is_open && e == DbError::NotOpen,
            },
    {
        if !self.is_open {
            return Err(DbError::NotOpen);
        }
        let ghost hours = hours_of(data@, local_offset_secs);
        let ghost days = days_of(data@, local_offset_secs);
        let mut rows: Vec<Vec<SqlParam>> = Vec::new();
        let mut hourly_count: HashMap<u64, u32> = HashMap::new();
        let mut daily_count: HashMap<u64, u32> = HashMap::new();
        let mut i: usize = 0;
        while i < data.len()
            invariant
                i <= data@.len() <= u32::MAX,
                hours == hours_of(data@, local_offset_secs),
                days == days_of(data@, local_offset_secs),
                sql::row_values(rows@) == Seq::new(i as nat, |k: int| domain_values(data@[k])),
                is_tally(hourly_count@, hours.take(i as int)),
                is_tally(daily_count@, days.take(i as int)),
            decreases data@.len() - i,
        {
            let ghost held = rows@;
            let d = &data[i];
            rows.push(domain_params(d));
            proof {
                sql::lemma_row_values_push(held, rows@.last());
                assert(sql::row_values(rows@) =~= Seq::new(
                    (i + 1) as nat,
                    |k: int| domain_values(data@[k]),
                ));
                assert(hours.take(i + 1) =~= hours.take(i as int).push(hours[i as int]));
                assert(days.take(i + 1) =~= days.take(i as int).push(days[i as int]));
            }
            let hour: u64 = bucket_start(
                d.timestamp,
                local_offset_secs,
                hourly::HOURLY_DETAIL_HOUR_MS,
            );
            let day: u64 = bucket_start(d.timestamp, local_offset_secs, DAY_MS);
            tally(&mut hourly_count, hour, Ghost(hours.take(i as int)));
            tally(&mut daily_count, day, Ghost(days.take(i as int)));
            i += 1;
        }
        proof {
            assert(hours.take(hours.len() as int) =~= hours);
            assert(days.take(days.len() as int) =~= days);
            assert(is_tally(hourly_count@, hours));
            assert(is_tally(daily_count@, days));
        }
        Ok(
            LogBatches {
                rows: Batch { sql: INSERT_DOMAIN_SQL.to_owned(), rows },
                hourly: self.update_domain_hourly_count(&hourly_count),
                daily: self.update_domain_daily_count(&daily_count),
            },
        )
    }
}

/// The hour in which a row is counted is the local hour of its time, where the
/// local time is not before 1970.
pub proof fn law_row_is_counted_in_its_local_hour(timestamp: u64, local_offset_secs: i32)
    requires
        timestamp <= i64::MAX,
        timestamp + local_offset_secs * 1000 >= 0,
        hourly::hour_start_int(timestamp, local_offset_secs as i64) >= 0,
    ensures
        bucket(timestamp, local_offset_secs, hourly::HOURLY_DETAIL_HOUR_MS) == hourly::hour_start(
            timestamp,
            local_offset_secs as i64,
        ),
{
}

/// The sum of the counts of a list of numbers.
pub open spec fn total(keys: Seq<u64>, m: Map<u64, u32>) -> nat
    decreases keys.len(),
{
    if keys.len() == 0 {
        0
    } else {
        total(keys.drop_last(), m) + m[keys.last()] as nat
    }
}

proof fn lemma_total_of_keys(keys: Seq<u64>, m: Map<u64, u32>, s: Seq<u64>)
    requires
        keys.no_duplicates(),
        forall|i: int| 0 <= i < keys.len() ==> m[#[trigger] keys[i]] == occurrences(s, keys[i]),
    ensures
        total(keys, m) == s.filter(|x: u64| keys.contains(x)).len(),
    decreases keys.len(),
{
    if keys.len() == 0 {
        s.lemma_all_neg_filter_empty(|x: u64| keys.contains(x));
    } else {
        let rest = keys.drop_last();
        let key = keys.last();
        assert(keys[keys.len() - 1] == key);
        assert forall|i: int| 0 <= i < rest.len() implies m[#[trigger] rest[i]] == occurrences(
            s,
            rest[i],
        ) by {
            assert(rest[i] == keys[i]);
        }
        lemma_total_of_keys(rest, m, s);
        assert(!rest.contains(key));
        assert forall|x: u64| #[trigger] keys.contains(x) <==> rest.contains(x) || x == key by {
            if rest.contains(x) {
                let i = choose|i: int| 0 <= i < rest.len() && rest[i] == x;
                assert(keys[i] == x);
            }
            if keys.contains(x) && x != key {
                let i = choose|i: int| 0 <= i < keys.len() && keys[i] == x;
                assert(rest[i] == x);
            }
        }
        lemma_split(s, rest, keys, key);
    }
}

proof fn lemma_split(s: Seq<u64>, rest: Seq<u64>, keys: Seq<u64>, key: u64)
    requires
        !rest.contains(key),
        forall|x: u64| #[trigger] keys.contains(x) <==> rest.contains(x) || x == key,
    ensures
        s.filter(|x: u64| keys.contains(x)).len() == s.filter(|x: u64| rest.contains(x)).len()
            + occurrences(s, key),
    decreases s.len(),
{
    reveal(Seq::filter);
    if s.len() > 0 {
        lemma_split(s.drop_last(), rest, keys, key);
        assert(keys.contains(s.last()) <==> rest.contains(s.last()) || s.last() == key);
    }
}

/// Every row is counted once: the counts that are added amount to the number of rows.
pub proof fn law_every_row_is_counted_once(keys: Seq<u64>, m: Map<u64, u32>, s: Seq<u64>)
    requires
        is_tally(m, s),
        is_listing(keys, m.dom()),
    ensures
        total(keys, m) == s.len(),
{
    assert forall|i: int| 0 <= i < keys.len() implies m[#[trigger] keys[i]] == occurrences(
        s,
        keys[i],
    ) by {
        assert(keys.to_set().contains(keys[i]));
    }
    lemma_total_of_keys(keys, m, s);
    let all = |x: u64| keys.contains(x);
    assert forall|i: int| 0 <= i < s.len() implies all(#[trigger] s[i]) by {
        lemma_occurrences(s, s[i]);
        assert(m.contains_key(s[i]));
        assert(keys.to_set().contains(s[i]));
    }
    filters::lemma_filter_all(s, all);
}

} // verus!
