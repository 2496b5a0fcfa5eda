use std::collections::HashMap;

use rusqlite::types::Value;
use rusqlite::{params_from_iter, Connection};

use smartdns_ui::db::DB;
use smartdns_ui::detail::{
    collect_hourly_detail_aggs, scan_fits, sort_aggs, HourlyDetailGroupAgg, ScanRow,
};
use smartdns_ui::hourly::{local_hour_start_ms, HOURLY_DETAIL_HOUR_MS};
use smartdns_ui::open::TABLE_STATEMENTS;
use smartdns_ui::report::{
    assemble_hourly_detail, hours_with_figures, push_hourly_detail_aggs, report_fits, HourlyDetail,
};
use smartdns_ui::report_run::{ReportAction, ReportRun};
use smartdns_ui::sql::{Batch, SqlParam, Statement};
use smartdns_ui::summary::hourly_detail_hours_covered;
use smartdns_ui::window::{
    format_local_hour, hourly_detail_scan_query, hourly_detail_table_query, local_hour_text,
    report_window, span_texts, stored_aggs, StoredRow,
};

const HOUR: u64 = HOURLY_DETAIL_HOUR_MS;

fn values(v: &Vec<SqlParam>) -> Vec<Value> {
    v.iter()
        .map(|p| match p {
            SqlParam::Integer(v) => Value::Integer(*v),
            SqlParam::Unsigned(v) => Value::Integer(i64::try_from(*v).unwrap()),
            SqlParam::Real(v) => Value::Real(f64::from_bits(*v)),
            SqlParam::Text(v) => Value::Text(v.clone()),
        })
        .collect()
}

fn run(conn: &Connection, b: &Batch) {
    let mut stmt = conn.prepare(&b.sql).unwrap();
    for row in &b.rows {
        stmt.execute(params_from_iter(values(row))).unwrap();
    }
}

fn set_up() -> (DB, Connection) {
    let db = DB {
        version: 10000,
        query_plan: false,
        is_open: true,
    };
    let conn = Connection::open_in_memory().unwrap();
    conn.execute("CREATE TABLE schema_version (version INTEGER PRIMARY KEY)", [])
        .unwrap();
    for i in 0..TABLE_STATEMENTS {
        let s = db.create_table(i);
        conn.execute(&s.sql, params_from_iter(values(&s.params))).unwrap();
    }
    (db, conn)
}

fn log(conn: &Connection, t: u64, group: &str, cached: bool, blocked: bool, time: i64) {
    conn.execute(
        "INSERT INTO domain (timestamp, domain, domain_type, client, domain_group, reply_code, query_time, ping_time, is_blocked, is_cached) VALUES (?1, 'd', 1, 'c', ?2, 0, ?3, 0.0, ?4, ?5)",
        (t as i64, group, time, blocked, cached),
    )
    .unwrap();
}

fn sum(times: &[u64]) -> u64 {
    let mut total = 0.0f64;
    for t in times {
        total += f64::from_bits(*t);
    }
    total.to_bits()
}

fn scan(conn: &Connection, start: u64, end: u64, off: i64) -> (Vec<HourlyDetailGroupAgg>, u64) {
    let s = hourly_detail_scan_query(start, end);
    let mut stmt = conn.prepare(&s.sql).unwrap();
    let found: Vec<Option<ScanRow>> = stmt
        .query_map(params_from_iter(values(&s.params)), |row| {
            Ok(ScanRow {
                timestamp: row.get(0)?,
                domain_group: row.get(1)?,
                is_cached: row.get(2)?,
                is_blocked: row.get(3)?,
                query_time: row.get::<_, Option<f64>>(4)?.map(|t| t.to_bits()),
            })
        })
        .unwrap()
        .map(|r| r.ok())
        .collect();
    assert!(scan_fits(&found, off));
    let (scans, n) = collect_hourly_detail_aggs(found, off);
    let aggs = scans
        .into_iter()
        .map(|s| {
            let cached = sum(&s.cached_times);
            let uncached = sum(&s.uncached_times);
            s.with_sums(cached, uncached)
        })
        .collect();
    (aggs, n)
}

fn read_stored(conn: &Connection, s: &Statement) -> Vec<StoredRow> {
    let mut stmt = conn.prepare(&s.sql).unwrap();
    let rows = stmt
        .query_map(params_from_iter(values(&s.params)), |row| {
            Ok(StoredRow {
                hour_timestamp: row.get(0)?,
                domain_group: row.get(1)?,
                query_count: row.get(2)?,
                cached_count: row.get(3)?,
                blocked_count: row.get(4)?,
                cached_time_sum: row.get::<_, Option<f64>>(5)?.map(|t| t.to_bits()),
                cached_time_count: row.get(6)?,
                uncached_time_sum: row.get::<_, Option<f64>>(7)?.map(|t| t.to_bits()),
                uncached_time_count: row.get(8)?,
            })
        })
        .unwrap();
    rows.map(|r| r.unwrap()).collect()
}

fn report(
    conn: &Connection,
    db: &DB,
    now: u64,
    off: i64,
    past_hours: u32,
    use_table: bool,
) -> (HourlyDetail, Vec<(u64, u64)>, usize) {
    let s = db.get_hourly_detail().unwrap();
    let oldest: Option<i64> = conn.query_row(&s.sql, [], |row| row.get(0)).unwrap();
    let window = match report_window(now, off, past_hours, oldest) {
        Some(w) => w,
        None => return (assemble_hourly_detail(now, HashMap::new()), vec![], 0),
    };
    assert!(window.spans_fit());
    let mut run = ReportRun::start(window, use_table);
    let mut spans = Vec::new();
    let mut stored = 0;
    loop {
        match run.next() {
            ReportAction::ReadStored(s) => {
                let rows = read_stored(conn, &s);
                stored = rows.len();
                run.stored(rows);
            }
            ReportAction::Scan(start, end) => {
                spans.push((start, end));
                run.scanned(scan(conn, start, end, off).0);
            }
            ReportAction::Finish => break,
        }
    }
    let table = run.finish();
    assert!(report_fits(&table));
    (assemble_hourly_detail(now, table), spans, stored)
}

fn lines(r: &HourlyDetail) -> Vec<String> {
    r.hourly_detail
        .iter()
        .map(|i| {
            let cached: f64 = i.cached_time_sums.iter().map(|t| f64::from_bits(*t)).sum();
            let uncached: f64 = i.uncached_time_sums.iter().map(|t| f64::from_bits(*t)).sum();
            let groups: Vec<String> = i
                .groups
                .iter()
                .map(|g| format!("{}:{}/{}", g.domain_group, g.query_count, g.cached_count))
                .collect();
            format!(
                "{} {} {} {} {}/{} {}/{} {:?}",
                i.hour_timestamp,
                i.query_count,
                i.cached_count,
                i.blocked_count,
                cached,
                i.cached_time_count,
                uncached,
                i.uncached_time_count,
                groups
            )
        })
        .collect()
}

#[test]
fn report_equals_one_scan_of_the_window() {
    for off in [0i64, 19_800, -18_000] {
        let (db, conn) = set_up();
        let now = 1_700_001_234_567u64;
        for i in 0..400u64 {
            let t = now - i * 367_003;
            let group = ["default", "ads", "work"][(i % 3) as usize];
            log(&conn, t, group, i % 2 == 0, i % 5 == 0, (i % 17) as i64);
        }
        let plain = report(&conn, &db, now, off, 24, false);
        assert_eq!(plain.2, 0);
        assert!(plain.0.hourly_detail.len() > 20);

        // every finished hour is summed up
        let w = db.refresh_hourly_detail(now, 24 * HOUR, off).unwrap();
        let s = w.detail_hours_query(off);
        let mut stmt = conn.prepare(&s.sql).unwrap();
        let needed: Vec<i64> = stmt
            .query_map(params_from_iter(values(&s.params)), |row| row.get(0))
            .unwrap()
            .map(|r| r.unwrap())
            .collect();
        for hour in &needed {
            assert_eq!(local_hour_start_ms(*hour as u64, off), *hour as u64);
        }
        let stored_hours = |conn: &Connection| -> Vec<i64> {
            let s = w.stored_hours_query(&needed).unwrap();
            let mut stmt = conn.prepare(&s.sql).unwrap();
            let r = stmt
                .query_map(params_from_iter(values(&s.params)), |row| row.get(0))
                .unwrap()
                .map(|r| r.unwrap())
                .collect();
            r
        };
        assert!(!hourly_detail_hours_covered(&needed, &stored_hours(&conn)));
        let (start, end) = w.span_to_summarize(false).unwrap();
        let s = db.summarize_hourly_detail(start, end).unwrap().unwrap();
        assert_eq!(s.sql, hourly_detail_scan_query(start, end).sql);
        let (aggs, n) = scan(&conn, start, end, off);
        assert_eq!(aggs.iter().map(|a| a.query_count).sum::<u64>(), n);
        let sorted = sort_aggs(aggs);
        for pair in sorted.windows(2) {
            assert!(
                (pair[0].hour_timestamp, &pair[0].domain_group)
                    < (pair[1].hour_timestamp, &pair[1].domain_group)
            );
        }
        for _ in 0..2 {
            run(&conn, &db.upsert_domain_hourly_detail(&sorted).unwrap().unwrap());
        }
        assert!(hourly_detail_hours_covered(&needed, &stored_hours(&conn)));

        let full = report(&conn, &db, now, off, 24, true);
        assert_eq!(lines(&full.0), lines(&plain.0));
        assert!(full.2 > 0);
        assert_eq!(full.1.len(), 2);

        // some hours are missing
        conn.execute(
            "DELETE FROM domain_hourly_detail WHERE hour_timestamp / 3600000 % 4 < 2",
            [],
        )
        .unwrap();
        let holes = report(&conn, &db, now, off, 24, true);
        assert_eq!(lines(&holes.0), lines(&plain.0));
        assert!(holes.1.len() > 2);

        // the newest hour comes first
        for pair in full.0.hourly_detail.windows(2) {
            assert!(pair[0].hour_timestamp > pair[1].hour_timestamp);
        }
        // the counts are those of the log
        let start = now / 1000 * 1000 - 24 * HOUR;
        let in_window: i64 = conn
            .query_row(
                "SELECT COUNT(*) FROM domain WHERE timestamp >= ?",
                [start as i64],
                |row| row.get(0),
            )
            .unwrap();
        let reported: u64 = full.0.hourly_detail.iter().map(|i| i.query_count as u64).sum();
        assert_eq!(reported, in_window as u64);
    }
}

#[test]
fn an_empty_log_gives_an_empty_report() {
    let (db, conn) = set_up();
    let r = report(&conn, &db, 1_700_000_000_000, 0, 24, true);
    assert_eq!(r.0.query_timestamp, 1_700_000_000_000);
    assert!(r.0.hourly_detail.is_empty());
}

#[test]
fn rows_are_summed_up_by_hour_and_group() {
    let row = |timestamp: i64, group: &str, cached: Option<i64>, time: Option<f64>| {
        Some(ScanRow {
            timestamp,
            domain_group: group.to_string(),
            is_cached: cached,
            is_blocked: if cached.is_none() { None } else { Some(1) },
            query_time: time.map(|t| t.to_bits()),
        })
    };
    let h = HOUR as i64;
    let (scans, n) = collect_hourly_detail_aggs(
        vec![
            row(h, "a", Some(1), Some(2.0)),
            None,
            row(h + 5, "a", Some(0), Some(3.0)),
            row(h + 6, "b", None, None),
            row(2 * h, "a", Some(7), Some(4.0)),
            row(-9, "a", Some(0), Some(1.0)),
        ],
        0,
    );
    assert_eq!(n, 5);
    assert_eq!(scans.len(), 4);
    let first = &scans[0];
    assert_eq!(first.hour_timestamp, HOUR);
    assert_eq!(
        (first.query_count, first.cached_count, first.blocked_count),
        (2, 1, 2)
    );
    assert_eq!(first.cached_times, vec![2.0f64.to_bits()]);
    assert_eq!(first.uncached_times, vec![3.0f64.to_bits()]);
    // a time that is not there counts as zero
    assert_eq!(scans[1].uncached_times, vec![0.0f64.to_bits()]);
    assert_eq!(scans[1].blocked_count, 0);
    // an instant before 1970 counts as 1970
    assert_eq!(scans[3].hour_timestamp, 0);
    assert!(!scan_fits(&vec![row(i64::MAX, "a", None, None)], 28_800));
    assert!(scan_fits(&vec![None], i64::MAX));
}

#[test]
fn stored_rows_are_read_with_defaults() {
    let aggs = stored_aggs(vec![StoredRow {
        hour_timestamp: -4,
        domain_group: "g".to_string(),
        query_count: Some(7),
        cached_count: None,
        blocked_count: Some(-1),
        cached_time_sum: None,
        cached_time_count: Some(2),
        uncached_time_sum: Some(1.5f64.to_bits()),
        uncached_time_count: Some(3),
    }]);
    let a = &aggs[0];
    assert_eq!(a.hour_timestamp, 0);
    assert_eq!((a.query_count, a.cached_count, a.blocked_count), (7, 0, 0));
    assert_eq!(f64::from_bits(a.cached_time_sum), 0.0);
    assert_eq!((a.cached_time_count, a.uncached_time_count), (2, 3));
    assert_eq!(f64::from_bits(a.uncached_time_sum), 1.5);
}

fn agg(hour: u64, group: &str, queries: u64) -> HourlyDetailGroupAgg {
    HourlyDetailGroupAgg {
        hour_timestamp: hour,
        domain_group: group.to_string(),
        query_count: queries,
        ..HourlyDetailGroupAgg::default()
    }
}

#[test]
fn counts_saturate_and_groups_are_sorted() {
    let mut table = HashMap::new();
    push_hourly_detail_aggs(
        &mut table,
        vec![
            agg(HOUR, "b", u32::MAX as u64),
            agg(2 * HOUR, "x", 1),
            agg(HOUR, "a", 5),
            agg(HOUR, "a", 0x1_0000_0007),
        ],
    );
    let mut hours: Vec<u64> = hours_with_figures(&table).into_iter().collect();
    hours.sort();
    assert_eq!(hours, vec![HOUR, 2 * HOUR]);
    assert!(report_fits(&table));
    let r = assemble_hourly_detail(3, table);
    assert_eq!(r.hourly_detail.len(), 2);
    assert_eq!(r.hourly_detail[0].hour_timestamp, 2 * HOUR);
    let item = &r.hourly_detail[1];
    assert_eq!(item.query_count, u32::MAX);
    let groups: Vec<(&str, u32)> = item
        .groups
        .iter()
        .map(|g| (g.domain_group.as_str(), g.query_count))
        .collect();
    // equal groups stay in the order in which they came, counts keep 32 bits
    assert_eq!(groups, vec![("a", 5), ("a", 7), ("b", u32::MAX)]);

    let mut table = HashMap::new();
    let mut big = agg(HOUR, "a", 1);
    big.cached_time_count = u64::MAX;
    push_hourly_detail_aggs(&mut table, vec![big.clone(), big]);
    assert!(!report_fits(&table));
}

#[test]
fn statements_of_the_report() {
    let (_, conn) = set_up();
    let s = hourly_detail_scan_query(5, u64::MAX);
    assert!(matches!(
        (&s.params[0], &s.params[1]),
        (SqlParam::Integer(5), SqlParam::Integer(i64::MAX))
    ));
    assert_eq!(
        span_texts(5, u64::MAX),
        vec!["5".to_string(), "18446744073709551615".to_string()]
    );
    let s = hourly_detail_table_query();
    assert!(conn.query_row(&s.sql, [], |_| Ok(())).is_ok());
    conn.execute("DROP TABLE domain_hourly_detail", []).unwrap();
    assert!(conn.query_row(&s.sql, [], |_| Ok(())).is_err());

    let s = format_local_hour(1_700_000_000_000);
    let text: Option<String> = conn
        .query_row(&s.sql, params_from_iter(values(&s.params)), |row| row.get(0))
        .unwrap();
    let text = local_hour_text(text);
    assert_eq!(text.len(), "2023-11-14 22:00:00".len());
    assert!(text.ends_with(":00:00"));
    assert_eq!(local_hour_text(None), "");
}
