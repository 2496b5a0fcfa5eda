use rusqlite::types::Value;
use rusqlite::{params_from_iter, Connection};

use smartdns_ui::db::DB;
use smartdns_ui::error::DbError;
use smartdns_ui::open::{DetailTableStep, OpenEvent, OpenStep, TABLE_STATEMENTS};
use smartdns_ui::sql::SqlParam;

fn values(v: &Vec<SqlParam>) -> Vec<Value> {
    v.iter()
        .map(|p| match p {
            SqlParam::Integer(v) => Value::Integer(*v),
            SqlParam::Unsigned(v) => Value::Integer(i64::try_from(*v).unwrap()),
            SqlParam::Real(v) => Value::Real(f64::from_bits(*v)),
            SqlParam::Text(v) => Value::Text(v.clone()),
        })
        .collect()
}

/// Opens a database in memory as a new file.
fn open_new(db: &mut DB, conn: &Connection, fail_at: Option<OpenStep>) -> Vec<OpenStep> {
    let mut at = OpenStep::OpenExisting;
    let mut seen = vec![at];
    loop {
        let event = if Some(at) == fail_at {
            OpenEvent::Failed
        } else {
            match at {
                OpenStep::OpenExisting => OpenEvent::Failed,
                OpenStep::CreateNew => OpenEvent::Done,
                OpenStep::ReadVersion => {
                    let s = db.open_statement(at).unwrap();
                    OpenEvent::Version(conn.query_row(&s.sql, [], |row| row.get(0)).ok())
                }
                OpenStep::ReadAutoVacuum => {
                    let s = db.open_statement(at).unwrap();
                    OpenEvent::AutoVacuum(conn.query_row(&s.sql, [], |row| row.get(0)).unwrap())
                }
                OpenStep::CheckDetailTable | OpenStep::EnableWal | OpenStep::SetCheckpoint => {
                    let s = db.open_statement(at).unwrap();
                    match conn.query_row(&s.sql, [], |_| Ok(())) {
                        Ok(()) => OpenEvent::Done,
                        Err(_) => OpenEvent::Failed,
                    }
                }
                OpenStep::Finished
                | OpenStep::Failed
                | OpenStep::Discarded
                | OpenStep::Refused(_) => return seen,
                _ => {
                    let s = db.open_statement(at).unwrap();
                    match conn.execute(&s.sql, params_from_iter(values(&s.params))) {
                        Ok(_) => OpenEvent::Done,
                        Err(_) => OpenEvent::Failed,
                    }
                }
            }
        };
        at = db.open(at, event);
        seen.push(at);
    }
}

#[test]
fn a_new_database_is_set_up() {
    let mut db = DB::new(false);
    let conn = Connection::open_in_memory().unwrap();
    let seen = open_new(&mut db, &conn, None);
    assert_eq!(*seen.last().unwrap(), OpenStep::Finished);
    assert!(db.is_open);
    assert_eq!(
        seen.iter().filter(|s| matches!(s, OpenStep::CreateTable(_))).count(),
        TABLE_STATEMENTS
    );
    // the table of summaries is there already
    assert!(!seen.contains(&OpenStep::CreateDetailTable));
    assert!(seen.contains(&OpenStep::SetAutoVacuum));
    let version: i32 = conn
        .query_row("SELECT version FROM schema_version", [], |row| row.get(0))
        .unwrap();
    assert_eq!(version, 10000);
    let tables: i64 = conn
        .query_row(
            "SELECT COUNT(*) FROM sqlite_master WHERE type = 'table' AND name IN ('domain', 'domain_hourly_count', 'domain_daily_count', 'domain_hourly_detail', 'top_domain_list', 'top_client_list', 'client', 'config', 'status_data', 'schema_version')",
            [],
            |row| row.get(0),
        )
        .unwrap();
    assert_eq!(tables, 10);
}

#[test]
fn a_failed_set_up_discards_the_new_file() {
    for at in [
        OpenStep::CreateSchema,
        OpenStep::CreateTable(0),
        OpenStep::CreateTable(TABLE_STATEMENTS - 1),
    ] {
        let mut db = DB::new(false);
        let conn = Connection::open_in_memory().unwrap();
        let seen = open_new(&mut db, &conn, Some(at));
        assert_eq!(*seen.last().unwrap(), OpenStep::Discarded);
        assert!(!db.is_open);
    }
    let mut db = DB::new(false);
    let conn = Connection::open_in_memory().unwrap();
    assert_eq!(
        open_new(&mut db, &conn, Some(OpenStep::CreateNew)),
        vec![OpenStep::OpenExisting, OpenStep::CreateNew, OpenStep::Failed]
    );
}

#[test]
fn an_older_schema_is_refused() {
    let mut db = DB::new(false);
    assert_eq!(
        db.open(OpenStep::ReadVersion, OpenEvent::Version(Some(9999))),
        OpenStep::Refused(DbError::MigrationUnsupported)
    );
    assert_eq!(
        DbError::MigrationUnsupported.message(),
        "Currently Not Support Migrate Database, Please Backup DB File, And Restart Server."
    );
    assert_eq!(
        db.open(OpenStep::ReadVersion, OpenEvent::Version(Some(10001))),
        OpenStep::CreateTable(0)
    );
    assert_eq!(
        db.open(OpenStep::ReadVersion, OpenEvent::Version(None)),
        OpenStep::CreateTable(0)
    );
    assert!(!db.is_open);
}

#[test]
fn an_existing_database_is_attached_as_it_is() {
    let mut db = DB::new(false);
    assert_eq!(
        db.open(OpenStep::OpenExisting, OpenEvent::Done),
        OpenStep::CheckDetailTable
    );
    assert!(db.is_open);
    assert_eq!(
        db.open(OpenStep::CheckDetailTable, OpenEvent::Failed),
        OpenStep::CreateDetailTable
    );
    // a failure to create the table of summaries changes nothing
    assert_eq!(
        db.open(OpenStep::CreateDetailTable, OpenEvent::Failed),
        OpenStep::SetUpConnection(0)
    );
    // a later failure is the outcome, and the connection stays
    assert_eq!(
        db.open(OpenStep::SetUpConnection(2), OpenEvent::Failed),
        OpenStep::Failed
    );
    assert!(db.is_open);
    // free space is given back bit by bit already
    assert_eq!(
        db.open(OpenStep::ReadAutoVacuum, OpenEvent::AutoVacuum(2)),
        OpenStep::EnableWal
    );
    assert_eq!(
        db.open(OpenStep::ReadAutoVacuum, OpenEvent::AutoVacuum(0)),
        OpenStep::SetAutoVacuum
    );
    assert_eq!(
        db.open(OpenStep::ReadAutoVacuum, OpenEvent::Failed),
        OpenStep::Failed
    );
    assert_eq!(
        db.open_statement(OpenStep::SetUpConnection(1)).unwrap().sql,
        "PRAGMA page_size  = 4096"
    );
    assert!(db.open_statement(OpenStep::Finished).is_none());
}

#[test]
fn the_table_of_summaries_is_made_sure_of() {
    let mut db = DB::new(false);
    assert_eq!(db.ensure_hourly_detail_table(), DetailTableStep::Missing);
    db.is_open = true;
    let at = db.ensure_hourly_detail_table();
    assert_eq!(at, DetailTableStep::Check);
    assert_eq!(at.after(true), DetailTableStep::Ready);
    assert_eq!(at.after(false), DetailTableStep::Create);
    assert_eq!(at.after(false).after(true), DetailTableStep::Ready);
    assert_eq!(at.after(false).after(false), DetailTableStep::Missing);
    assert_eq!(DetailTableStep::Missing.after(true), DetailTableStep::Missing);
}
