use rusqlite::types::Value;
use rusqlite::{params_from_iter, Connection};

use smartdns_ui::client_list::{client_list_result, ClientListStep};
use smartdns_ui::db::DB;
use smartdns_ui::detail::HourlyDetailGroupAgg;
use smartdns_ui::domain_list::{domain_list_result, domain_sql_where, domain_total_is_counted};
use smartdns_ui::error::DbError;
use smartdns_ui::hourly::HOURLY_DETAIL_HOUR_MS;
use smartdns_ui::model::{
    ClientData, ClientListGetParam, DailyQueryCountItem, DomainData, DomainListGetParam,
    DomainListGetParamCursor, HourlyQueryCountItem,
};
use smartdns_ui::open::TABLE_STATEMENTS;
use smartdns_ui::rows::{first_count, first_readable, key_values, keep_readable, reversed};
use smartdns_ui::sql::{Batch, SqlParam, Statement};
use smartdns_ui::statistics::{daily_query_count, hourly_query_count};

const HOUR: u64 = HOURLY_DETAIL_HOUR_MS;

fn value(p: &SqlParam) -> Value {
    match p {
        SqlParam::Integer(v) => Value::Integer(*v),
        SqlParam::Unsigned(v) => Value::Integer(i64::try_from(*v).unwrap()),
        SqlParam::Real(v) => Value::Real(f64::from_bits(*v)),
        SqlParam::Text(v) => Value::Text(v.clone()),
    }
}

fn values(v: &Vec<SqlParam>) -> Vec<Value> {
    v.iter().map(value).collect()
}

fn execute(conn: &Connection, s: &Statement) -> usize {
    conn.execute(&s.sql, params_from_iter(values(&s.params))).unwrap()
}

fn run(conn: &Connection, b: &Batch) {
    let mut stmt = conn.prepare(&b.sql).unwrap();
    for row in &b.rows {
        stmt.execute(params_from_iter(values(row))).unwrap();
    }
}

fn number(conn: &Connection, s: &Statement) -> i64 {
    conn.query_row(&s.sql, params_from_iter(values(&s.params)), |row| row.get(0))
        .unwrap()
}

fn open_db() -> DB {
    DB {
        version: 10000,
        query_plan: false,
        is_open: true,
    }
}

fn set_up(db: &DB) -> Connection {
    let conn = Connection::open_in_memory().unwrap();
    conn.execute("CREATE TABLE schema_version (version INTEGER PRIMARY KEY)", [])
        .unwrap();
    for i in 0..TABLE_STATEMENTS {
        execute(&conn, &db.create_table(i));
    }
    conn
}

fn data(timestamp: u64, domain: &str, client: &str) -> DomainData {
    DomainData {
        id: 0,
        timestamp,
        domain: domain.to_string(),
        domain_type: 1,
        client: client.to_string(),
        domain_group: "default".to_string(),
        reply_code: 0,
        query_time: 12,
        ping_time: 1.25f64.to_bits(),
        is_blocked: false,
        is_cached: true,
    }
}

fn read_domains(conn: &Connection, s: &Statement) -> Vec<Option<DomainData>> {
    let mut stmt = conn.prepare(&s.sql).unwrap();
    let rows = stmt
        .query_map(params_from_iter(values(&s.params)), |row| {
            Ok(DomainData {
                id: row.get(0)?,
                timestamp: row.get(1)?,
                domain: row.get(2)?,
                domain_type: row.get(3)?,
                client: row.get(4)?,
                domain_group: row.get(5)?,
                reply_code: row.get(6)?,
                query_time: row.get(7)?,
                ping_time: row.get::<_, f64>(8)?.to_bits(),
                is_blocked: row.get(9)?,
                is_cached: row.get(10)?,
            })
        })
        .unwrap();
    rows.map(|r| r.ok()).collect()
}

fn page(conn: &Connection, db: &DB, p: &DomainListGetParam) -> (Vec<u64>, u64, bool) {
    let s = db.get_domain_list(Some(p)).unwrap().unwrap();
    let found = read_domains(conn, &s);
    let counted = if domain_total_is_counted(Some(p)) {
        number(conn, &db.get_domain_list_count(Some(p)).unwrap()) as u64
    } else {
        0
    };
    let r = domain_list_result(Some(p), found, counted);
    (
        r.domain_list.iter().map(|d| d.id).collect(),
        r.total_count,
        r.step_by_cursor,
    )
}

#[test]
fn upsert_hourly_detail_is_idempotent() {
    let db = DB {
        version: 10000,
        query_plan: false,
        is_open: true,
    };
    let conn = Connection::open_in_memory().unwrap();
    execute(&conn, &db.create_hourly_detail_table());

    let aggs = vec![HourlyDetailGroupAgg {
        hour_timestamp: 100 * HOUR,
        domain_group: "default".to_string(),
        query_count: 10,
        cached_count: 4,
        blocked_count: 1,
        cached_time_sum: 12.0f64.to_bits(),
        cached_time_count: 4,
        uncached_time_sum: 30.0f64.to_bits(),
        uncached_time_count: 6,
    }];

    // the same hour summed up twice is overwritten, not added up
    run(&conn, &db.upsert_domain_hourly_detail(&aggs).unwrap().unwrap());
    run(&conn, &db.upsert_domain_hourly_detail(&aggs).unwrap().unwrap());

    let rows: i64 = conn
        .query_row("SELECT COUNT(*) FROM domain_hourly_detail", [], |row| {
            row.get(0)
        })
        .unwrap();
    assert_eq!(rows, 1, "same (hour, group) must be overwritten, not appended");

    let (query_count, cached_count, cached_sum, cached_cnt, blocked): (i64, i64, f64, i64, i64) =
        conn.query_row(
            "SELECT query_count, cached_count, cached_time_sum, cached_time_count, blocked_count \
             FROM domain_hourly_detail WHERE hour_timestamp = ?1 AND domain_group = ?2",
            ((100 * HOUR) as i64, "default"),
            |row| {
                Ok((
                    row.get(0)?,
                    row.get(1)?,
                    row.get(2)?,
                    row.get(3)?,
                    row.get(4)?,
                ))
            },
        )
        .unwrap();

    assert_eq!((query_count, cached_count, cached_cnt, blocked), (10, 4, 4, 1));
    assert_eq!(cached_sum, 12.0);
}

#[test]
fn rows_are_logged_and_counted() {
    let db = open_db();
    let conn = set_up(&db);
    let t = 1_700_000_000_000u64;
    let rows = vec![
        data(t, "a.com", "10.0.0.2"),
        data(t + 1, "b.com", "10.0.0.3"),
        data(t + HOUR, "a.com", "10.0.0.2"),
    ];
    let b = db.insert_domain(&rows, 28_800).unwrap();
    assert_eq!(b.rows.rows.len(), 3);
    for _ in 0..2 {
        run(&conn, &b.rows);
        run(&conn, &b.hourly);
        run(&conn, &b.daily);
    }
    let count = |sql: &str| -> i64 { conn.query_row(sql, [], |r| r.get(0)).unwrap() };
    assert_eq!(count("SELECT COUNT(*) FROM domain"), 6);
    assert_eq!(count("SELECT COUNT(*) FROM domain_hourly_count"), 2);
    assert_eq!(count("SELECT SUM(count) FROM domain_hourly_count"), 6);
    assert_eq!(
        count("SELECT count FROM domain_hourly_count WHERE timestamp = 1699999200000"),
        4
    );
    assert_eq!(count("SELECT SUM(count) FROM domain_daily_count"), 6);
    assert_eq!(count("SELECT timestamp FROM domain ORDER BY id LIMIT 1"), t as i64);
    let ping: f64 = conn
        .query_row("SELECT ping_time FROM domain LIMIT 1", [], |r| r.get(0))
        .unwrap();
    assert_eq!(ping, 1.25);

    // nothing to log
    let b = db.insert_domain(&vec![], 0).unwrap();
    assert!(b.rows.rows.is_empty() && b.hourly.rows.is_empty() && b.daily.rows.is_empty());
}

#[test]
fn pages_walk_through_the_log() {
    let db = open_db();
    let conn = set_up(&db);
    let t = 1_700_000_000_000u64;
    let rows: Vec<DomainData> = (0..10)
        .map(|i| data(t + i, if i % 2 == 0 { "a.com" } else { "b.com" }, "10.0.0.2"))
        .collect();
    run(&conn, &db.insert_domain(&rows, 0).unwrap().rows);

    let mut p = DomainListGetParam::new();
    p.page_size = 3;
    assert_eq!(page(&conn, &db, &p), (vec![10, 9, 8], 10, false));
    p.page_num = 2;
    assert_eq!(page(&conn, &db, &p), (vec![7, 6, 5], 10, false));
    p.order = Some("ASC".to_string());
    assert_eq!(page(&conn, &db, &p), (vec![4, 5, 6], 10, false));

    // a cursor steps on and back; a page always comes in the order asked for
    p.cursor = Some(DomainListGetParamCursor {
        id: Some(4),
        total_count: 42,
        direction: "next".to_string(),
    });
    assert_eq!(page(&conn, &db, &p), (vec![5, 6, 7], 42, true));
    p.cursor.as_mut().unwrap().direction = "Prev".to_string();
    assert_eq!(page(&conn, &db, &p), (vec![1, 2, 3], 42, true));
    p.order = None;
    assert_eq!(page(&conn, &db, &p), (vec![7, 6, 5], 42, true));
    p.cursor.as_mut().unwrap().direction = "next".to_string();
    assert_eq!(page(&conn, &db, &p), (vec![3, 2, 1], 42, true));

    // stepping on from a full page and back again gives the same page, in either order
    for order in [None, Some("asc".to_string())] {
        for (start, direction) in [(9, "next"), (2, "next"), (9, "prev"), (2, "prev")] {
            let mut p = DomainListGetParam::new();
            p.page_size = 2;
            p.order = order.clone();
            let cursor = |id: u64, direction: &str| {
                Some(DomainListGetParamCursor {
                    id: Some(id),
                    total_count: 10,
                    direction: direction.to_string(),
                })
            };
            p.cursor = cursor(start, direction);
            let a = page(&conn, &db, &p).0;
            if a.len() < 2 {
                continue;
            }
            p.cursor = cursor(a[1], "next");
            let b = page(&conn, &db, &p).0;
            if b.is_empty() {
                continue;
            }
            p.cursor = cursor(b[0], "prev");
            assert_eq!(page(&conn, &db, &p).0, a);
        }
    }

    // filters
    let mut p = DomainListGetParam::new();
    p.domain = Some("a.com".to_string());
    assert_eq!(page(&conn, &db, &p).1, 5);
    p.domain = Some("COM".to_string());
    p.domain_filter_mode = Some("CONTAINS".to_string());
    assert_eq!(page(&conn, &db, &p).1, 10);
    p.domain = Some("a.".to_string());
    p.domain_filter_mode = Some("EndsWith".to_string());
    assert_eq!(page(&conn, &db, &p).1, 5);
    p.domain = Some("b.com".to_string());
    p.domain_filter_mode = Some("startswith".to_string());
    assert_eq!(page(&conn, &db, &p).1, 5);
    p.domain_filter_mode = Some("notempty".to_string());
    assert_eq!(page(&conn, &db, &p).1, 10);

    let mut p = DomainListGetParam::new();
    p.timestamp_after = Some(t + 3);
    p.timestamp_before = Some(t + 4);
    assert_eq!(page(&conn, &db, &p), (vec![5, 4], 2, false));
    p.client_ips = Some(vec!["10.0.0.9".to_string(), "10.0.0.2".to_string()]);
    assert_eq!(page(&conn, &db, &p).1, 2);
    p.client_ips = Some(vec![]);
    p.client = Some("nobody".to_string());
    assert_eq!(page(&conn, &db, &p).1, 2);
    p.client_ips = None;
    assert_eq!(page(&conn, &db, &p).1, 0);
}

#[test]
fn domain_clauses_are_written_out() {
    assert_eq!(
        DB::get_domain_sql_where(None).unwrap(),
        (String::new(), String::new(), vec![])
    );
    let mut p = DomainListGetParam::new();
    p.id = Some(5);
    p.domain = Some("x".to_string());
    p.domain_filter_mode = Some("CONTAINS".to_string());
    p.domain_type = Some(28);
    p.client_ips = Some(vec!["a".to_string(), "b".to_string()]);
    p.domain_group = Some("g".to_string());
    p.reply_code = Some(3);
    p.timestamp_before = Some(9);
    p.timestamp_after = Some(1);
    p.is_blocked = Some(true);
    p.is_cached = Some(false);
    let (clause, order, args) = DB::get_domain_sql_where(Some(&p)).unwrap();
    assert_eq!(
        clause,
        " WHERE id = ? AND domain LIKE ? AND domain_type = ? AND client IN (?,?) AND domain_group = ? AND reply_code = ? AND timestamp <= ? AND timestamp >= ? AND is_blocked = 1 AND is_cached = 0"
    );
    assert_eq!(order, " ORDER BY id DESC, timestamp DESC");
    assert_eq!(args, vec!["5", "%x%", "28", "a", "b", "g", "3", "9", "1"]);

    // a cursor takes the place of a time bound
    let mut p = DomainListGetParam::new();
    p.timestamp_before = Some(9);
    p.cursor = Some(DomainListGetParamCursor {
        id: Some(77),
        total_count: 1,
        direction: "next".to_string(),
    });
    let (clause, order, args) = DB::get_domain_sql_where(Some(&p)).unwrap();
    assert_eq!(clause, " WHERE id < ?");
    assert_eq!(order, " ORDER BY id DESC, timestamp DESC");
    assert_eq!(args, vec!["77"]);
    p.cursor.as_mut().unwrap().direction = "prev".to_string();
    let (clause, order, args) = DB::get_domain_sql_where(Some(&p)).unwrap();
    assert_eq!(clause, " WHERE timestamp <= ? AND id > ?");
    assert_eq!(order, " ORDER BY id ASC, timestamp ASC");
    assert_eq!(args, vec!["9", "77"]);

    // values never get into the statement
    let mut q = DomainListGetParam::new();
    q.domain = Some("' OR 1=1 --".to_string());
    let mut r = DomainListGetParam::new();
    r.domain = Some("plain".to_string());
    let a = DB::get_domain_sql_where(Some(&q)).unwrap();
    let b = DB::get_domain_sql_where(Some(&r)).unwrap();
    assert_eq!((a.0, a.1), (b.0, b.1));
}

#[test]
fn refused_requests_say_why() {
    let db = open_db();
    let mut p = DomainListGetParam::new();
    p.order = Some("up".to_string());
    assert_eq!(DB::get_domain_sql_where(Some(&p)), Err(DbError::OrderParam));
    assert_eq!(DbError::OrderParam.message(), "order param error");
    // a refused request is counted over the whole log
    assert_eq!(
        db.get_domain_list_count(Some(&p)).unwrap().sql,
        "SELECT COUNT(*) FROM domain"
    );

    let mut p = DomainListGetParam::new();
    p.cursor = Some(DomainListGetParamCursor {
        id: None,
        total_count: 0,
        direction: "sideways".to_string(),
    });
    assert!(matches!(db.get_domain_list(Some(&p)), Err(DbError::CursorDirectionParam)));
    assert_eq!(
        DbError::CursorDirectionParam.message(),
        "cursor direction param error"
    );

    let mut p = DomainListGetParam::new();
    p.domain_filter_mode = Some("fuzzy".to_string());
    assert!(DB::get_domain_sql_where(Some(&p)).is_ok());
    p.domain = Some("x".to_string());
    assert_eq!(DB::get_domain_sql_where(Some(&p)), Err(DbError::DomainFilterModeParam));
    assert_eq!(
        DbError::DomainFilterModeParam.message(),
        "domain_filter_mode param error"
    );
    // the mode is read in lower case
    assert_eq!(domain_sql_where(Some(&p), Some("FUZZY")), Err(DbError::DomainFilterModeParam));
    assert!(domain_sql_where(Some(&p), Some("equals")).is_ok());
    assert_eq!(domain_sql_where(Some(&p), Some("EQUALS")), Err(DbError::DomainFilterModeParam));

    // a page that cannot be counted off
    let mut p = DomainListGetParam::new();
    p.page_num = 0;
    assert!(db.get_domain_list(Some(&p)).unwrap().is_none());
    p.page_num = u64::MAX;
    p.page_size = u64::MAX;
    assert!(db.get_domain_list(Some(&p)).unwrap().is_none());

    let mut c = ClientListGetParam::new();
    c.order = Some("up".to_string());
    assert_eq!(DB::get_client_sql_where(Some(&c)), Err(DbError::OrderParam));
    assert!(matches!(db.get_client_list(Some(&c)), Err(DbError::OrderParam)));
    c.order = None;
    c.page_num = 0;
    assert!(db.get_client_list(Some(&c)).unwrap().is_none());
    assert!(db.get_client_list_from(Some(&c), None).unwrap().is_none());
}

#[test]
fn a_closed_store_refuses() {
    let mut db = DB::new(false);
    assert_eq!(db.version, 10000);
    assert_eq!(DbError::NotOpen.message(), "db is not open");
    assert!(matches!(db.get_domain_list(None), Err(DbError::NotOpen)));
    assert!(db.get_domain_list_count(None).is_none());
    assert!(matches!(db.get_client_list(None), Err(DbError::NotOpen)));
    assert!(matches!(db.get_client_list_from(None, None), Err(DbError::NotOpen)));
    assert!(db.get_client_list_count(None).is_none());
    assert!(matches!(db.run_vacuum(None), Err(DbError::NotOpen)));
    assert!(matches!(db.set_config("k", "v"), Err(DbError::NotOpen)));
    assert!(matches!(db.get_config("k"), Err(DbError::NotOpen)));
    assert!(matches!(db.get_config_list(), Err(DbError::NotOpen)));
    assert!(matches!(db.set_status_data("k", "v"), Err(DbError::NotOpen)));
    assert!(matches!(db.get_status_data_list(), Err(DbError::NotOpen)));
    assert!(matches!(db.insert_domain(&vec![], 0), Err(DbError::NotOpen)));
    assert!(matches!(db.insert_client(&vec![]), Err(DbError::NotOpen)));
    assert!(matches!(db.update_client_hostnames(&vec![]), Err(DbError::NotOpen)));
    assert!(matches!(db.delete_domain_by_id(1), Err(DbError::NotOpen)));
    assert!(matches!(db.delete_domain_before_timestamp(1), Err(DbError::NotOpen)));
    assert!(matches!(
        db.delete_daily_query_count_before_timestamp(1),
        Err(DbError::NotOpen)
    ));
    assert!(matches!(
        db.delete_hourly_query_count_before_timestamp(1),
        Err(DbError::NotOpen)
    ));
    assert!(matches!(
        db.delete_hourly_detail_before_timestamp(1),
        Err(DbError::NotOpen)
    ));
    assert!(matches!(db.delete_client_by_id(1), Err(DbError::NotOpen)));
    assert!(matches!(db.refresh_client_top_list(1, 2), Err(DbError::NotOpen)));
    assert!(matches!(db.refresh_domain_top_list(1, 2), Err(DbError::NotOpen)));
    assert!(matches!(db.get_client_top_list(1), Err(DbError::NotOpen)));
    assert!(matches!(db.get_domain_top_list(1), Err(DbError::NotOpen)));
    assert!(matches!(db.get_daily_query_count(1, 0), Err(DbError::NotOpen)));
    assert!(matches!(db.get_hourly_query_count(1, 0), Err(DbError::NotOpen)));
    assert!(matches!(db.get_client_ip_mac_pairs(), Err(DbError::NotOpen)));
    assert!(matches!(db.get_client_rows_without_hostname(), Err(DbError::NotOpen)));
    assert!(matches!(db.get_hourly_detail(), Err(DbError::NotOpen)));
    // nothing to write is no reason to refuse
    assert!(db.upsert_domain_hourly_detail(&vec![]).unwrap().is_none());
    assert!(matches!(
        db.upsert_domain_hourly_detail(&vec![HourlyDetailGroupAgg::default()]),
        Err(DbError::NotOpen)
    ));
    assert!(db.summarize_hourly_detail(5, 5).unwrap().is_none());
    assert!(matches!(db.summarize_hourly_detail(5, 6), Err(DbError::NotOpen)));

    assert!(!db.close());
    db.is_open = true;
    assert!(db.close());
    assert!(!db.is_open);
}

#[test]
fn settings_are_kept() {
    let db = open_db();
    let conn = set_up(&db);
    execute(&conn, &db.set_config("lang", "en").unwrap());
    execute(&conn, &db.set_config("lang", "de").unwrap());
    execute(&conn, &db.set_config("theme", "dark").unwrap());
    execute(&conn, &db.set_status_data("up", "1").unwrap());

    let read = |s: &Statement| -> Vec<Option<(String, String)>> {
        let mut stmt = conn.prepare(&s.sql).unwrap();
        let rows = stmt
            .query_map(params_from_iter(values(&s.params)), |row| {
                Ok((row.get(0)?, row.get(1)?))
            })
            .unwrap();
        rows.map(|r| r.ok()).collect()
    };
    let all = key_values(read(&db.get_config_list().unwrap()));
    assert_eq!(all.len(), 2);
    assert_eq!(all.get("lang"), Some(&"de".to_string()));
    let all = key_values(read(&db.get_status_data_list().unwrap()));
    assert_eq!(all.get("up"), Some(&"1".to_string()));

    let s = db.get_config("theme").unwrap();
    let found: String = conn
        .query_row(&s.sql, params_from_iter(values(&s.params)), |row| row.get(0))
        .unwrap();
    assert_eq!(found, "dark");
}

#[test]
fn rows_that_cannot_be_read_are_dropped() {
    assert_eq!(keep_readable(vec![None, Some(3), None, Some(1)]), vec![3, 1]);
    assert_eq!(first_readable(vec![None, Some(3), Some(1)]), Some(3));
    assert_eq!(first_readable::<u64>(vec![None, None]), None);
    assert_eq!(first_count(vec![None, Some(8)]), 8);
    assert_eq!(first_count(vec![]), 0);
    assert_eq!(reversed(vec![1, 2, 3]), vec![3, 2, 1]);
    let m = key_values(vec![
        Some(("k".to_string(), "a".to_string())),
        None,
        Some(("k".to_string(), "b".to_string())),
    ]);
    assert_eq!(m.get("k"), Some(&"b".to_string()));
}

#[test]
fn clients_are_written_and_listed() {
    let db = open_db();
    let conn = set_up(&db);
    conn.execute(
        "INSERT INTO client (id, client_ip, mac, hostname, last_query_timestamp) VALUES (1, '10.0.0.1', '00:00:00:00:00:00', '', 1)",
        [],
    )
    .unwrap();
    let client = |ip: &str, mac: &str, hostname: &str, t: u64| ClientData {
        id: 0,
        hostname: hostname.to_string(),
        client_ip: ip.to_string(),
        mac: mac.to_string(),
        last_query_timestamp: t,
    };
    let list: Vec<ClientData> = (2..=7)
        .map(|i| client(&format!("10.0.0.{}", i), &format!("aa:{}", i), "", 100 + i))
        .collect();
    run(&conn, &db.insert_client(&list).unwrap());
    run(&conn, &db.insert_client(&vec![client("10.0.0.2", "aa:2", "phone", 500)]).unwrap());
    // an empty name leaves the one that is known
    run(&conn, &db.insert_client(&vec![client("10.0.0.2", "aa:2", "", 600)]).unwrap());
    // and so does another name: only the time of the last query is renewed
    let one = |sql: &str| -> i64 { conn.query_row(sql, [], |r| r.get(0)).unwrap() };
    let id = one("SELECT id FROM client WHERE client_ip = '10.0.0.2'");
    run(&conn, &db.insert_client(&vec![client("10.0.0.2", "aa:2", "tablet", 700)]).unwrap());
    assert_eq!(one("SELECT COUNT(*) FROM client WHERE client_ip = '10.0.0.2'"), 1);
    assert_eq!(one("SELECT id FROM client WHERE client_ip = '10.0.0.2'"), id);
    assert_eq!(
        one("SELECT last_query_timestamp FROM client WHERE client_ip = '10.0.0.2'"),
        700
    );
    assert_eq!(one("SELECT COUNT(*) FROM client WHERE hostname = 'phone'"), 1);
    assert_eq!(one("SELECT COUNT(*) FROM client WHERE hostname = 'tablet'"), 0);

    let read = |s: &Statement| -> Vec<Option<ClientData>> {
        let mut stmt = conn.prepare(&s.sql).unwrap();
        let rows = stmt
            .query_map(params_from_iter(values(&s.params)), |row| {
                Ok(ClientData {
                    id: row.get(0)?,
                    client_ip: row.get(1)?,
                    mac: row.get(2)?,
                    hostname: row.get(3)?,
                    last_query_timestamp: row.get(4)?,
                })
            })
            .unwrap();
        rows.map(|r| r.ok()).collect()
    };
    let page = |p: &ClientListGetParam| -> Vec<u32> {
        let s = match db.get_client_list(Some(p)).unwrap().unwrap() {
            ClientListStep::Anchor(s) => {
                let anchor: Option<i64> = conn
                    .query_row(&s.sql, params_from_iter(values(&s.params)), |row| row.get(0))
                    .ok();
                db.get_client_list_from(Some(p), anchor).unwrap().unwrap()
            }
            ClientListStep::Page(s) => s,
        };
        let counted = number(&conn, &db.get_client_list_count(Some(p)).unwrap()) as u64;
        let r = client_list_result(Some(p), read(&s), counted);
        assert!(!r.step_by_cursor);
        assert_eq!(r.total_count, counted);
        r.client_list.iter().map(|c| c.id).collect()
    };

    let mut p = ClientListGetParam::new();
    p.page_size = 3;
    assert_eq!(page(&p), vec![7, 6, 5]);
    p.page_num = 2;
    assert_eq!(page(&p), vec![4, 3, 2]);
    p.page_num = 9;
    assert_eq!(page(&p).len(), 3);
    p.page_num = 2;
    p.order = Some("asc".to_string());
    assert_eq!(page(&p), vec![4, 5, 6]);
    p.timestamp_after = Some(104);
    assert_eq!(page(&p), vec![7, 2]);
    p.timestamp_after = None;
    p.page_num = 1;
    p.client_ip = Some("10.0.0.2".to_string());
    assert_eq!(page(&p), vec![2]);

    // without a request every client comes, and no total
    let s = match db.get_client_list(None).unwrap().unwrap() {
        ClientListStep::Page(s) => s,
        ClientListStep::Anchor(_) => panic!("no page to look for"),
    };
    let r = client_list_result(None, read(&s), 9);
    assert_eq!((r.client_list.len(), r.total_count), (7, 0));

    let hostname = |id: u32| -> String {
        conn.query_row("SELECT hostname FROM client WHERE id = ?", [id], |r| r.get(0))
            .unwrap()
    };
    assert_eq!(hostname(2), "phone");
    run(
        &conn,
        &db.update_client_hostnames(&vec![(3, "tv".to_string())]).unwrap(),
    );
    assert_eq!(hostname(3), "tv");

    let rows = |s: Statement| -> usize {
        let mut stmt = conn.prepare(&s.sql).unwrap();
        let n = stmt.query_map([], |_| Ok(())).unwrap().count();
        n
    };
    assert_eq!(rows(db.get_client_ip_mac_pairs().unwrap()), 6);
    assert_eq!(rows(db.get_client_rows_without_hostname().unwrap()), 5);
    assert_eq!(execute(&conn, &db.delete_client_by_id(3).unwrap()), 1);
}

#[test]
fn client_clauses_are_written_out() {
    let mut p = ClientListGetParam::new();
    p.id = Some(1);
    p.client_ip = Some("ip".to_string());
    p.mac = Some("m".to_string());
    p.hostname = Some("h".to_string());
    p.timestamp_before = Some(9);
    p.timestamp_after = Some(2);
    let (clause, order, args) = DB::get_client_sql_where(Some(&p)).unwrap();
    assert_eq!(
        clause,
        " WHERE id = ? AND client_ip = ? AND mac = ? AND hostname = ? AND last_query_timestamp <= ? AND last_query_timestamp >= ?"
    );
    assert_eq!(order, " ORDER BY last_query_timestamp DESC, id DESC");
    assert_eq!(args, vec!["1", "ip", "m", "h", "9", "2"]);
}

#[test]
fn top_lists_are_made_anew() {
    let db = open_db();
    let conn = set_up(&db);
    let t = 1_700_000_000_000u64;
    let mut rows = vec![data(t - 1, "old.com", "10.0.0.9")];
    for i in 0..3 {
        rows.push(data(t + i, "a.com", "10.0.0.2"));
    }
    rows.push(data(t + 9, "b.com", "10.0.0.3"));
    run(&conn, &db.insert_domain(&rows, 0).unwrap().rows);

    let clients = db.refresh_client_top_list(t, t + 100).unwrap();
    let domains = db.refresh_domain_top_list(t, t + 100).unwrap();
    for _ in 0..2 {
        execute(&conn, &clients.clear);
        execute(&conn, &clients.fill);
        execute(&conn, &domains.clear);
        execute(&conn, &domains.fill);
    }
    let read = |s: &Statement| -> Vec<(String, u32)> {
        let mut stmt = conn.prepare(&s.sql).unwrap();
        let rows = stmt
            .query_map(params_from_iter(values(&s.params)), |row| {
                Ok((row.get(0)?, row.get(1)?))
            })
            .unwrap();
        rows.map(|r| r.unwrap()).collect()
    };
    assert_eq!(
        read(&clients.read),
        vec![("10.0.0.2".to_string(), 3), ("10.0.0.3".to_string(), 1)]
    );
    assert_eq!(read(&domains.read).len(), 2);
    assert_eq!(
        read(&db.get_client_top_list(1).unwrap()),
        vec![("10.0.0.2".to_string(), 3)]
    );
    assert_eq!(
        read(&db.get_domain_top_list(1).unwrap()),
        vec![("a.com".to_string(), 3)]
    );
}

#[test]
fn query_counts_reach_back_from_the_end_of_the_hour() {
    let db = open_db();
    let conn = set_up(&db);
    let s = db.get_daily_query_count(7, 600).unwrap().unwrap();
    assert!(matches!(&s.params[0], SqlParam::Text(t) if t == "604200"));
    let mut stmt = conn.prepare(&s.sql).unwrap();
    assert_eq!(
        stmt.query_map(params_from_iter(values(&s.params)), |_| Ok(())).unwrap().count(),
        0
    );
    let s = db.get_hourly_query_count(24, 600).unwrap().unwrap();
    assert!(matches!(&s.params[0], SqlParam::Text(t) if t == "85800"));
    conn.prepare(&s.sql).unwrap();
    // spans that do not fit
    assert!(db.get_hourly_query_count(0, 1).unwrap().is_none());
    assert!(db.get_daily_query_count(u32::MAX, 0).unwrap().is_none());

    let r = daily_query_count(
        5,
        vec![
            None,
            Some(DailyQueryCountItem {
                day: "2024-01-01".to_string(),
                query_count: 3,
            }),
        ],
    );
    assert_eq!((r.query_timestamp, r.daily_query_count.len()), (5, 1));
    let r = hourly_query_count(
        6,
        vec![Some(HourlyQueryCountItem {
            hour: "h".to_string(),
            query_count: 3,
        })],
    );
    assert_eq!((r.query_timestamp, r.hourly_query_count[0].query_count), (6, 3));
}

#[test]
fn old_rows_are_dropped() {
    let db = open_db();
    let conn = set_up(&db);
    let rows = vec![data(1000, "a", "c"), data(2000, "a", "c"), data(3000, "a", "c")];
    let b = db.insert_domain(&rows, 0).unwrap();
    run(&conn, &b.rows);
    run(&conn, &b.hourly);
    run(&conn, &b.daily);
    let (s, pages) = db.delete_domain_before_timestamp(2000).unwrap();
    assert_eq!(execute(&conn, &s), 2);
    assert_eq!(pages, Some(50000));
    assert_eq!(execute(&conn, &db.delete_domain_by_id(3).unwrap()), 1);
    assert_eq!(
        execute(&conn, &db.delete_hourly_query_count_before_timestamp(0).unwrap()),
        1
    );
    assert_eq!(
        execute(&conn, &db.delete_daily_query_count_before_timestamp(0).unwrap()),
        1
    );
    assert_eq!(
        execute(&conn, &db.delete_hourly_detail_before_timestamp(0).unwrap()),
        0
    );
}

#[test]
fn vacuum_plans_and_sizes() {
    let db = open_db();
    let (checkpoint, vacuum, shrink) = db.run_vacuum(Some(50000)).unwrap();
    assert_eq!(checkpoint.sql, "PRAGMA wal_checkpoint(PASSIVE)");
    assert_eq!(vacuum.sql, "PRAGMA incremental_vacuum(50000)");
    assert_eq!(shrink.sql, "PRAGMA shrink_memory");
    assert_eq!(db.run_vacuum(None).unwrap().1.sql, "PRAGMA incremental_vacuum");

    assert!(db.debug_query_plan("SELECT 1", vec![]).is_none());
    let verbose = DB {
        version: 10000,
        query_plan: true,
        is_open: true,
    };
    let s = verbose
        .debug_query_plan("SELECT ?", vec!["x".to_string()])
        .unwrap();
    assert_eq!(s.sql, "EXPLAIN QUERY PLAN SELECT ?");
    assert!(matches!(&s.params[0], SqlParam::Text(t) if t == "x"));

    assert_eq!(DB::wal_path("/tmp/a.db"), "/tmp/a.db-wal");
    assert_eq!(DB::get_db_size(Some(10), Some(5)), 15);
    assert_eq!(DB::get_db_size(Some(10), None), 10);
    assert_eq!(DB::get_db_size(None, Some(5)), 0);
}
