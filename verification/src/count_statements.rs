//! What the statements on counts and top lists do.

use vstd::prelude::*;

use crate::db;
use crate::filters;
use crate::hostname;
use crate::hourly;
use crate::model::DomainData;
use crate::query_log;
use crate::relational;
use crate::relational::Cell;
use crate::sql;
use crate::statistics;
use crate::statistics::TopListRefresh;
use crate::summary;
use crate::summary_columns;
use crate::window;

verus! {

/// A statement that adds to the count of a time: the count is the number that
/// is bound where the time has none yet, and grows by that number else.
pub open spec fn adds_to_count(table: Seq<char>) -> Seq<char> {
    "INSERT INTO "@ + table + " (timestamp, count)
                 VALUES (
                    ?1,
                    ?2
                )
                ON CONFLICT(timestamp) DO UPDATE SET count = count + ?2;"@
}

/// The counts of hours and those of days are added to in the same way, each in
/// its own table; the time is bound first and the number second.
pub proof fn law_counts_are_added_to_their_table(time: u64, n: u32)
    ensures
        query_log::HOURLY_COUNT_SQL@ == adds_to_count("domain_hourly_count"@),
        query_log::DAILY_COUNT_SQL@ == adds_to_count("domain_daily_count"@),
        ({
            let v = query_log::count_values((time, n));
            &&& v.len() == 2
            &&& relational::is_cell(v[0], Cell::Number(time as int))
            &&& relational::is_cell(v[1], Cell::Number(n as int))
        }),
{
    reveal_strlit("INSERT INTO ");
    reveal_strlit(" (timestamp, count)
                 VALUES (
                    ?1,
                    ?2
                )
                ON CONFLICT(timestamp) DO UPDATE SET count = count + ?2;");
    assert(query_log::HOURLY_COUNT_SQL@ =~= adds_to_count("domain_hourly_count"@)) by {
        reveal_strlit("domain_hourly_count");
        reveal_strlit("INSERT INTO domain_hourly_count (timestamp, count)
                 VALUES (
                    ?1,
                    ?2
                )
                ON CONFLICT(timestamp) DO UPDATE SET count = count + ?2;");
    }
    assert(query_log::DAILY_COUNT_SQL@ =~= adds_to_count("domain_daily_count"@)) by {
        reveal_strlit("domain_daily_count");
        reveal_strlit("INSERT INTO domain_daily_count (timestamp, count)
                 VALUES (
                    ?1,
                    ?2
                )
                ON CONFLICT(timestamp) DO UPDATE SET count = count + ?2;");
    }
}

/// The count of a time; 0 where it has none.
pub open spec fn count_at(table: Map<int, int>, time: int) -> int {
    if table.contains_key(time) {
        table[time]
    } else {
        0
    }
}

/// A table of counts after the numbers were added to the counts of their times,
/// row by row.
pub open spec fn with_counts(table: Map<int, int>, rows: Seq<Seq<sql::SqlValue>>) -> Map<int, int>
    decreases rows.len(),
{
    if rows.len() == 0 {
        table
    } else {
        let before = with_counts(table, rows.drop_last());
        match (rows.last()[0], rows.last()[1]) {
            (sql::SqlValue::Unsigned(time), sql::SqlValue::Integer(n)) => before.insert(
                time as int,
                count_at(before, time as int) + n,
            ),
            _ => before,
        }
    }
}

/// Adding the counts of rows lets the count of each hour or day grow by the
/// number of rows that fall into it, and leaves the other counts.
pub proof fn law_counts_grow_by_the_rows(
    table: Map<int, int>,
    b: sql::BatchModel,
    text: Seq<char>,
    spans: Seq<u64>,
    time: u64,
)
    requires
        query_log::adds_occurrences(b, text, spans),
    ensures
        b.sql == text,
        count_at(with_counts(table, b.rows), time as int) == count_at(table, time as int)
            + query_log::occurrences(spans, time),
{
    let m = choose|m: Map<u64, u32>| #[trigger]
        query_log::is_tally(m, spans) && query_log::adds_counts(b, text, m);
    let keys = choose|keys: Seq<u64>| #[trigger]
        query_log::is_listing(keys, m.dom()) && b.rows == Seq::new(
            keys.len(),
            |i: int| query_log::count_values((keys[i], m[keys[i]])),
        );
    lemma_counts_of_keys(table, b.rows, keys, m, time);
    assert(m.contains_key(time) <==> query_log::occurrences(spans, time) > 0);
    assert(keys.to_set().contains(time) <==> m.dom().contains(time));
}

proof fn lemma_counts_of_keys(
    table: Map<int, int>,
    rows: Seq<Seq<sql::SqlValue>>,
    keys: Seq<u64>,
    m: Map<u64, u32>,
    time: u64,
)
    requires
        keys.no_duplicates(),
        rows == Seq::new(
            keys.len(),
            |i: int| query_log::count_values((keys[i], m[keys[i]])),
        ),
    ensures
        count_at(with_counts(table, rows), time as int) == count_at(table, time as int) + if
        keys.contains(time) {
            m[time] as int
        } else {
            0
        },
    decreases keys.len(),
{
    if keys.len() > 0 {
        let rest = keys.drop_last();
        let last = keys.last();
        assert(rows.drop_last() =~= Seq::new(
            rest.len(),
            |i: int| query_log::count_values((rest[i], m[rest[i]])),
        ));
        lemma_counts_of_keys(table, rows.drop_last(), rest, m, time);
        assert(rows.last() == query_log::count_values((last, m[last])));
        assert(keys[keys.len() - 1] == last);
        if rest.contains(time) {
            let i = choose|i: int| 0 <= i < rest.len() && rest[i] == time;
            assert(keys[i] == time);
        }
        if keys.contains(time) && time != last {
            let i = choose|i: int| 0 <= i < keys.len() && keys[i] == time;
            assert(rest[i] == time);
        }
    }
}

/// The span of local time, an hour or a day long, in which an instant is
/// counted starts no later than the instant, less than its length before it,
/// and at a full hour or day of local time.
pub proof fn law_instant_is_counted_in_its_span(timestamp: u64, local_offset_secs: i32, span_ms: u64)
    requires
        span_ms == 3_600_000 || span_ms == 86_400_000,
        timestamp <= i64::MAX,
        timestamp >= (timestamp + local_offset_secs * 1000) % (span_ms as int),
        timestamp + local_offset_secs * 1000 >= 0,
    ensures
        ({
            let start = query_log::bucket(timestamp, local_offset_secs, span_ms);
            &&& start <= timestamp < start + span_ms
            &&& (start + local_offset_secs * 1000) % (span_ms as int) == 0
        }),
        query_log::DAY_MS == 86_400_000,
        hourly::HOURLY_DETAIL_HOUR_MS == 3_600_000,
{
    let d = local_offset_secs * 1000;
    if span_ms == 3_600_000 {
        assert(query_log::bucket(timestamp, local_offset_secs, span_ms) == timestamp - (timestamp
            + d) % 3_600_000);
    } else {
        assert(query_log::bucket(timestamp, local_offset_secs, span_ms) == timestamp - (timestamp
            + d) % 86_400_000);
    }
}

/// A statement that fills a top list with the twenty most frequent values of a
/// column of the log from an instant on, and with the span that was looked at;
/// `lead` and `pad` are white space.
pub open spec fn fills_top_list(
    table: Seq<char>,
    column: Seq<char>,
    lead: Seq<char>,
    pad: Seq<char>,
) -> Seq<char> {
    "INSERT INTO "@ + table + " ("@ + column + ", count, timestamp_start, timestamp_end)"@ + lead
        + "SELECT "@ + pad + column + ","@ + pad + "COUNT(*),"@ + pad + "?1,"@ + pad + "?2"@
        + "
             FROM domain
             WHERE timestamp >= ?1
             GROUP BY "@ + column + "
             ORDER BY COUNT(*) DESC
             LIMIT 20"@
}

/// Both top lists are filled in the same way: from the log since an instant,
/// which is bound first, up to the present, which is bound second.
pub proof fn law_top_lists_are_filled_from_the_log(r: TopListRefresh, from: u64, now_ms: u64)
    requires
        statistics::is_refresh(
            r,
            "DELETE FROM top_client_list"@,
            statistics::FILL_TOP_CLIENTS_SQL@,
            "SELECT client, count FROM top_client_list ORDER BY count DESC"@,
            from,
            now_ms,
        ) || statistics::is_refresh(
            r,
            "DELETE FROM top_domain_list"@,
            statistics::FILL_TOP_DOMAINS_SQL@,
            "SELECT domain, count FROM top_domain_list ORDER BY count DESC"@,
            from,
            now_ms,
        ),
    ensures
        statistics::FILL_TOP_CLIENTS_SQL@ == fills_top_list(
            "top_client_list"@,
            "client"@,
            "
             "@,
            "
                 "@,
        ),
        statistics::FILL_TOP_DOMAINS_SQL@ == fills_top_list(
            "top_domain_list"@,
            "domain"@,
            "
               "@,
            "
               "@,
        ),
        r.clear@.params.len() == 0 && r.read@.params.len() == 0,
        r.fill@.params.len() == 2,
        relational::is_cell(r.fill@.params[0], Cell::Number(from as int)),
        relational::is_cell(r.fill@.params[1], Cell::Number(now_ms as int)),
{
    reveal_strlit("INSERT INTO ");
    reveal_strlit(" (");
    reveal_strlit(", count, timestamp_start, timestamp_end)");
    reveal_strlit("SELECT ");
    reveal_strlit(",");
    reveal_strlit("COUNT(*),");
    reveal_strlit("?1,");
    reveal_strlit("?2");
    assert(statistics::FILL_TOP_CLIENTS_SQL@ =~= fills_top_list(
        "top_client_list"@,
        "client"@,
        "
             "@,
        "
                 "@,
    )) by {
        reveal_strlit("INSERT INTO top_client_list (client, count, timestamp_start, timestamp_end)
             SELECT 
                 client,
                 COUNT(*),
                 ?1,
                 ?2
             FROM domain
             WHERE timestamp >= ?1
             GROUP BY client
             ORDER BY COUNT(*) DESC
             LIMIT 20");
        reveal_strlit("top_client_list");
        reveal_strlit("client");
        reveal_strlit("
             ");
        reveal_strlit("
                 ");
        reveal_strlit("
             FROM domain
             WHERE timestamp >= ?1
             GROUP BY ");
        reveal_strlit("
             ORDER BY COUNT(*) DESC
             LIMIT 20");
    }
    assert(statistics::FILL_TOP_DOMAINS_SQL@ =~= fills_top_list(
        "top_domain_list"@,
        "domain"@,
        "
               "@,
        "
               "@,
    )) by {
        reveal_strlit("INSERT INTO top_domain_list (domain, count, timestamp_start, timestamp_end)
               SELECT 
               domain,
               COUNT(*),
               ?1,
               ?2
             FROM domain
             WHERE timestamp >= ?1
             GROUP BY domain
             ORDER BY COUNT(*) DESC
             LIMIT 20");
        reveal_strlit("top_domain_list");
        reveal_strlit("domain");
        reveal_strlit("
               ");
        reveal_strlit("
             FROM domain
             WHERE timestamp >= ?1
             GROUP BY ");
        reveal_strlit("
             ORDER BY COUNT(*) DESC
             LIMIT 20");
    }
}

/// A query for the counts of a table since so many seconds ago, the latest
/// first, each with its local time in a format.
pub open spec fn selects_counts(
    format: Seq<char>,
    name: Seq<char>,
    table: Seq<char>,
) -> Seq<char> {
    "SELECT strftime('"@ + format + "', datetime(timestamp / 1000, 'unixepoch', 'localtime')) AS "@ + name
        + ", timestamp, count FROM "@ + table
        + " WHERE timestamp >= strftime('%s', 'now') * 1000 - ? * 1000 ORDER BY timestamp DESC;"@
}

/// Days and hours are read in the same way, each from its own table and each
/// in its own format; hours are formatted as in a report.
pub proof fn law_counts_are_read_from_their_table()
    ensures
        statistics::DAILY_QUERY_COUNT_SQL@ == selects_counts(
            "%Y-%m-%d"@,
            "date"@,
            "domain_daily_count"@,
        ),
        statistics::HOURLY_QUERY_COUNT_SQL@ == selects_counts(
            "%Y-%m-%d %H:00:00"@,
            "hour"@,
            "domain_hourly_count"@,
        ),
        window::LOCAL_HOUR_SQL@ == "SELECT strftime('"@ + "%Y-%m-%d %H:00:00"@
            + "', datetime(?1 / 1000, 'unixepoch', 'localtime'))"@,
{
    reveal_strlit("SELECT strftime('");
    reveal_strlit("', datetime(timestamp / 1000, 'unixepoch', 'localtime')) AS ");
    reveal_strlit(", timestamp, count FROM ");
    reveal_strlit(" WHERE timestamp >= strftime('%s', 'now') * 1000 - ? * 1000 ORDER BY timestamp DESC;");
    assert(statistics::DAILY_QUERY_COUNT_SQL@ =~= selects_counts(
        "%Y-%m-%d"@,
        "date"@,
        "domain_daily_count"@,
    )) by {
        reveal_strlit("SELECT strftime('%Y-%m-%d', datetime(timestamp / 1000, 'unixepoch', 'localtime')) AS date, timestamp, count FROM domain_daily_count WHERE timestamp >= strftime('%s', 'now') * 1000 - ? * 1000 ORDER BY timestamp DESC;");
        reveal_strlit("%Y-%m-%d");
        reveal_strlit("date");
        reveal_strlit("domain_daily_count");
    }
    assert(statistics::HOURLY_QUERY_COUNT_SQL@ =~= selects_counts(
        "%Y-%m-%d %H:00:00"@,
        "hour"@,
        "domain_hourly_count"@,
    )) by {
        reveal_strlit("SELECT strftime('%Y-%m-%d %H:00:00', datetime(timestamp / 1000, 'unixepoch', 'localtime')) AS hour, timestamp, count FROM domain_hourly_count WHERE timestamp >= strftime('%s', 'now') * 1000 - ? * 1000 ORDER BY timestamp DESC;");
        reveal_strlit("%Y-%m-%d %H:00:00");
        reveal_strlit("hour");
        reveal_strlit("domain_hourly_count");
    }
    assert(window::LOCAL_HOUR_SQL@ =~= "SELECT strftime('"@ + "%Y-%m-%d %H:00:00"@
        + "', datetime(?1 / 1000, 'unixepoch', 'localtime'))"@) by {
        reveal_strlit("SELECT strftime('%Y-%m-%d %H:00:00', datetime(?1 / 1000, 'unixepoch', 'localtime'))");
        reveal_strlit("%Y-%m-%d %H:00:00");
        reveal_strlit("', datetime(?1 / 1000, 'unixepoch', 'localtime'))");
    }
}

/// So many days or hours are counted back from the end of the present hour; they
/// can be counted where they are 32-bit numbers of seconds and reach into the past.
pub proof fn law_past_span_ends_with_the_hour(unit: u32, count: u32, until_next_hour: u32)
    ensures
        statistics::past_seconds(unit, count, until_next_hour) + until_next_hour == unit * count,
        statistics::past_seconds_in_range(unit, count, until_next_hour) <==> until_next_hour <= unit
            * count <= 0xffff_ffff,
{
}

/// The two queries of a refresh: the hours of the span that have a summary, and
/// the local hours of the span in which the log has a row.
pub proof fn law_hours_of_a_refresh_are_read()
    ensures
        summary::STORED_HOURS_SQL@ == summary_columns::select_span(
            seq!["DISTINCT hour_timestamp"@],
            "domain_hourly_detail"@,
            "hour_timestamp"@,
        ),
        summary::DETAIL_HOURS_SQL@ == "SELECT DISTINCT "@ + "(timestamp + ?1) / ?2 * ?2 - ?1"@
            + " AS hour FROM domain WHERE timestamp >= ?3 AND timestamp < ?4"@,
{
    assert(summary::STORED_HOURS_SQL@ =~= summary_columns::select_span(
        seq!["DISTINCT hour_timestamp"@],
        "domain_hourly_detail"@,
        "hour_timestamp"@,
    )) by {
        reveal_strlit("SELECT DISTINCT hour_timestamp FROM domain_hourly_detail WHERE hour_timestamp >= ?1 AND hour_timestamp < ?2");
        reveal_strlit("DISTINCT hour_timestamp");
        reveal_strlit("domain_hourly_detail");
        reveal_strlit("hour_timestamp");
        reveal_strlit("SELECT ");
        reveal_strlit(" FROM ");
        reveal_strlit(" WHERE ");
        reveal_strlit(" >= ?1 AND ");
        reveal_strlit(" < ?2");
    }
    assert(summary::DETAIL_HOURS_SQL@ =~= "SELECT DISTINCT "@ + "(timestamp + ?1) / ?2 * ?2 - ?1"@
        + " AS hour FROM domain WHERE timestamp >= ?3 AND timestamp < ?4"@) by {
        reveal_strlit("SELECT DISTINCT (timestamp + ?1) / ?2 * ?2 - ?1 AS hour FROM domain WHERE timestamp >= ?3 AND timestamp < ?4");
        reveal_strlit("SELECT DISTINCT ");
        reveal_strlit("(timestamp + ?1) / ?2 * ?2 - ?1");
        reveal_strlit(" AS hour FROM domain WHERE timestamp >= ?3 AND timestamp < ?4");
    }
}

/// A refresh sums up the last three finished hours where the table is complete,
/// and every hour of the retention where it is not; never an hour that the
/// retention has cut off.
pub proof fn law_refresh_looks_again_at_the_last_hours(
    w: summary::RefreshWindow,
    covered: bool,
)
    requires
        w.first_full_hour < w.current_hour,
    ensures
        ({
            let recent = w.current_hour - 10_800_000;
            summary::summary_span(w, covered) == Some(
                (
                    if covered && recent > w.first_full_hour {
                        recent as u64
                    } else {
                        w.first_full_hour
                    },
                    w.current_hour,
                ),
            )
        }),
{
}

/// A statement that drops the rows of a table up to an instant, and that one too.
pub open spec fn drops_up_to(table: Seq<char>, time: Seq<char>) -> Seq<char> {
    "DELETE FROM "@ + table + " WHERE "@ + time + " <= ?"@
}

/// Old rows are dropped from every table in the same way, by the time of the table.
pub proof fn law_old_rows_are_dropped_by_their_time()
    ensures
        db::DELETE_DOMAIN_SQL@ == drops_up_to("domain"@, "timestamp"@),
        db::DELETE_DAILY_COUNT_SQL@ == drops_up_to("domain_daily_count"@, "timestamp"@),
        db::DELETE_HOURLY_COUNT_SQL@ == drops_up_to("domain_hourly_count"@, "timestamp"@),
        summary::DELETE_HOURLY_DETAIL_SQL@ == drops_up_to("domain_hourly_detail"@, "hour_timestamp"@),
{
    reveal_strlit("DELETE FROM ");
    reveal_strlit(" WHERE ");
    reveal_strlit(" <= ?");
    assert(db::DELETE_DOMAIN_SQL@ =~= drops_up_to("domain"@, "timestamp"@)) by {
        reveal_strlit("DELETE FROM domain WHERE timestamp <= ?");
        reveal_strlit("domain");
        reveal_strlit("timestamp");
    }
    assert(db::DELETE_DAILY_COUNT_SQL@ =~= drops_up_to("domain_daily_count"@, "timestamp"@)) by {
        reveal_strlit("DELETE FROM domain_daily_count WHERE timestamp <= ?");
        reveal_strlit("domain_daily_count");
        reveal_strlit("timestamp");
    }
    assert(db::DELETE_HOURLY_COUNT_SQL@ =~= drops_up_to("domain_hourly_count"@, "timestamp"@)) by {
        reveal_strlit("DELETE FROM domain_hourly_count WHERE timestamp <= ?");
        reveal_strlit("domain_hourly_count");
        reveal_strlit("timestamp");
    }
    assert(summary::DELETE_HOURLY_DETAIL_SQL@ =~= drops_up_to("domain_hourly_detail"@, "hour_timestamp"@)) by {
        reveal_strlit("DELETE FROM domain_hourly_detail WHERE hour_timestamp <= ?");
        reveal_strlit("domain_hourly_detail");
        reveal_strlit("hour_timestamp");
    }
}

/// A top list is read with what it names, its count and the span that was looked
/// at; the clients with the most queries come first.
pub proof fn law_top_lists_are_read_from_their_columns()
    ensures
        statistics::TOP_CLIENTS_SQL@ == relational::select(
            seq!["client"@, "count"@, "timestamp_start"@, "timestamp_end"@],
            "top_client_list"@,
        ) + " ORDER BY count DESC"@ + " LIMIT ?"@,
        statistics::TOP_DOMAINS_SQL@ == relational::select(
            seq!["domain"@, "count"@, "timestamp_start"@, "timestamp_end"@],
            "top_domain_list"@,
        ) + " DESC"@ + " LIMIT ?"@,
{
    reveal_with_fuel(relational::listed, 5);
    reveal_strlit("SELECT ");
    reveal_strlit(" FROM ");
    reveal_strlit(", ");
    reveal_strlit("count");
    reveal_strlit("timestamp_start");
    reveal_strlit("timestamp_end");
    reveal_strlit(" LIMIT ?");
    assert(statistics::TOP_CLIENTS_SQL@ =~= relational::select(
        seq!["client"@, "count"@, "timestamp_start"@, "timestamp_end"@],
        "top_client_list"@,
    ) + " ORDER BY count DESC"@ + " LIMIT ?"@) by {
        reveal_strlit("SELECT client, count, timestamp_start, timestamp_end FROM top_client_list ORDER BY count DESC LIMIT ?");
        reveal_strlit("client");
        reveal_strlit("top_client_list");
        reveal_strlit(" ORDER BY count DESC");
    }
    assert(statistics::TOP_DOMAINS_SQL@ =~= relational::select(
        seq!["domain"@, "count"@, "timestamp_start"@, "timestamp_end"@],
        "top_domain_list"@,
    ) + " DESC"@ + " LIMIT ?"@) by {
        reveal_strlit("SELECT domain, count, timestamp_start, timestamp_end FROM top_domain_list DESC LIMIT ?");
        reveal_strlit("domain");
        reveal_strlit("top_domain_list");
        reveal_strlit(" DESC");
    }
}

/// The clients that are read at startup: those with an address and a hardware
/// address of their own, and those whose name is empty, with the number by which
/// the name is written.
pub proof fn law_clients_are_read_at_startup()
    ensures
        db::CLIENT_PAIRS_SQL@ == relational::select(seq!["client_ip"@, "mac"@], "client"@)
            + " WHERE mac != '"@ + hostname::ZERO_MAC@ + "' AND client_ip != ''"@,
        db::UNNAMED_CLIENTS_SQL@ == relational::select(
            seq!["id"@, "client_ip"@, "mac"@],
            "client"@,
        ) + " WHERE hostname = ''"@,
{
    reveal_with_fuel(relational::listed, 4);
    reveal_strlit("SELECT ");
    reveal_strlit(" FROM ");
    reveal_strlit(", ");
    reveal_strlit("client_ip");
    reveal_strlit("mac");
    reveal_strlit("client");
    assert(db::CLIENT_PAIRS_SQL@ =~= relational::select(seq!["client_ip"@, "mac"@], "client"@)
        + " WHERE mac != '"@ + hostname::ZERO_MAC@ + "' AND client_ip != ''"@) by {
        reveal_strlit("SELECT client_ip, mac FROM client WHERE mac != '00:00:00:00:00:00' AND client_ip != ''");
        reveal_strlit(" WHERE mac != '");
        reveal_strlit("00:00:00:00:00:00");
        reveal_strlit("' AND client_ip != ''");
    }
    assert(db::UNNAMED_CLIENTS_SQL@ =~= relational::select(seq!["id"@, "client_ip"@, "mac"@], "client"@)
        + " WHERE hostname = ''"@) by {
        reveal_strlit("SELECT id, client_ip, mac FROM client WHERE hostname = ''");
        reveal_strlit("id");
        reveal_strlit(" WHERE hostname = ''");
    }
}

/// The number of rows that are counted for an hour or a day is the number of
/// those whose time lies in it.
pub proof fn law_count_of_a_span_is_the_number_of_its_rows(
    data: Seq<DomainData>,
    local_offset_secs: i32,
    span_ms: u64,
    start: u64,
)
    requires
        span_ms == 3_600_000 || span_ms == 86_400_000,
        (start + local_offset_secs * 1000) % (span_ms as int) == 0,
        forall|i: int|
            0 <= i < data.len() ==> {
                let t = (#[trigger] data[i]).timestamp;
                &&& t <= i64::MAX
                &&& t >= (t + local_offset_secs * 1000) % (span_ms as int)
                &&& t + local_offset_secs * 1000 >= 0
            },
    ensures
        query_log::occurrences(query_log::buckets(data, local_offset_secs, span_ms), start)
            == data.filter(|d: DomainData| start <= d.timestamp < start + span_ms).len(),
    decreases data.len(),
{
    reveal(Seq::filter);
    let all = query_log::buckets(data, local_offset_secs, span_ms);
    if data.len() > 0 {
        let rest = data.drop_last();
        assert forall|i: int| 0 <= i < rest.len() implies {
            let t = (#[trigger] rest[i]).timestamp;
            &&& t <= i64::MAX
            &&& t >= (t + local_offset_secs * 1000) % (span_ms as int)
            &&& t + local_offset_secs * 1000 >= 0
        } by {
            assert(rest[i] == data[i]);
        }
        law_count_of_a_span_is_the_number_of_its_rows(rest, local_offset_secs, span_ms, start);
        assert(all.drop_last() =~= query_log::buckets(rest, local_offset_secs, span_ms));
        let t = data[data.len() - 1].timestamp;
        law_instant_is_counted_in_its_span(t, local_offset_secs, span_ms);
        assert(all.last() == query_log::bucket(t, local_offset_secs, span_ms));
        lemma_spans_do_not_overlap(
            start as int,
            all.last() as int,
            local_offset_secs * 1000,
            span_ms as int,
        );
        lemma_spans_do_not_overlap(
            all.last() as int,
            start as int,
            local_offset_secs * 1000,
            span_ms as int,
        );
    }
}

proof fn lemma_spans_do_not_overlap(a: int, b: int, d: int, span: int)
    requires
        span == 3_600_000 || span == 86_400_000,
        (a + d) % span == 0,
        (b + d) % span == 0,
    ensures
        a < b ==> a + span <= b,
{
    if span == 3_600_000 {
        assert((a + d) % 3_600_000 == 0 && (b + d) % 3_600_000 == 0);
    } else {
        assert((a + d) % 86_400_000 == 0 && (b + d) % 86_400_000 == 0);
    }
}

/// The hours and the days in which rows are counted are an hour and a day long.
pub proof fn law_rows_are_counted_by_hour_and_by_day(
    data: Seq<DomainData>,
    local_offset_secs: i32,
    hour: u64,
    day: u64,
)
    requires
        (hour + local_offset_secs * 1000) % 3_600_000 == 0,
        (day + local_offset_secs * 1000) % 86_400_000 == 0,
        forall|i: int|
            0 <= i < data.len() ==> 200_000_000 <= (#[trigger] data[i]).timestamp <= i64::MAX,
        -100_000 <= local_offset_secs <= 100_000,
    ensures
        query_log::occurrences(query_log::hours_of(data, local_offset_secs), hour) == data.filter(
            |d: DomainData| hour <= d.timestamp < hour + 3_600_000,
        ).len(),
        query_log::occurrences(query_log::days_of(data, local_offset_secs), day) == data.filter(
            |d: DomainData| day <= d.timestamp < day + 86_400_000,
        ).len(),
{
    law_count_of_a_span_is_the_number_of_its_rows(data, local_offset_secs, 3_600_000, hour);
    law_count_of_a_span_is_the_number_of_its_rows(data, local_offset_secs, 86_400_000, day);
    filters::lemma_filter_same(
        data,
        |d: DomainData| hour <= d.timestamp < hour + 3_600_000u64,
        |d: DomainData| hour <= d.timestamp < hour + 3_600_000,
    );
    filters::lemma_filter_same(
        data,
        |d: DomainData| day <= d.timestamp < day + 86_400_000u64,
        |d: DomainData| day <= d.timestamp < day + 86_400_000,
    );
}

/// What a refresh of an incomplete table sums up begins with the first full hour
/// of local time behind the end of the retention.
pub proof fn law_refresh_begins_behind_the_retention(
    now_ms: u64,
    retention_ms: u64,
    local_offset_secs: i64,
)
    requires
        now_ms <= 0x7fff_ffff_0000_0000,
        now_ms >= retention_ms,
        -1_000_000 <= local_offset_secs <= 1_000_000,
        now_ms - retention_ms >= (now_ms - retention_ms + local_offset_secs * 1000) % 3_600_000,
    ensures
        ({
            let first = summary::first_full_hour(now_ms, retention_ms, local_offset_secs);
            &&& first - 3_600_000 <= now_ms - retention_ms < first
            &&& (first + local_offset_secs * 1000) % 3_600_000 == 0
            &&& summary::refresh_in_range(now_ms, retention_ms, local_offset_secs)
        }),
{
    hourly::law_hours_can_be_computed(now_ms, local_offset_secs);
    hourly::law_hours_can_be_computed((now_ms - retention_ms) as u64, local_offset_secs);
}

} // verus!
