//! The handle of the store: its state, and the statements of its small requests.

use vstd::prelude::*;
use vstd::string::*;

use crate::error::DbError;
use crate::sql;
use crate::sql::{SqlParam, Statement};
use crate::text;

verus! {

/// The schema version: one digit major, two minor, two patch.
pub const SCHEMA_VERSION: i32 = 10000;

/// How many pages are given back after old rows of the log were dropped.
pub const PURGE_VACUUM_PAGES: u32 = 50000;

/// Drops the log up to an instant.
pub const DELETE_DOMAIN_SQL: &'static str =
    "DELETE FROM domain WHERE timestamp <= ?";

/// Drops the daily counts up to an instant.
pub const DELETE_DAILY_COUNT_SQL: &'static str =
    "DELETE FROM domain_daily_count WHERE timestamp <= ?";

/// Drops the hourly counts up to an instant.
pub const DELETE_HOURLY_COUNT_SQL: &'static str =
    "DELETE FROM domain_hourly_count WHERE timestamp <= ?";

/// Reads the address and the hardware address of each client that has both.
pub const CLIENT_PAIRS_SQL: &'static str =
    "SELECT client_ip, mac FROM client WHERE mac != '00:00:00:00:00:00' AND client_ip != ''";

/// Reads the clients whose name is empty.
pub const UNNAMED_CLIENTS_SQL: &'static str =
    "SELECT id, client_ip, mac FROM client WHERE hostname = ''";

/// The state of the store's handle, apart from the connection itself.
#[derive(Debug)]
pub struct DB {
    /// The schema version: one digit major, two minor, two patch.
    pub version: i32,
    /// Whether query plans are logged.
    pub query_plan: bool,
    /// Whether a connection is attached.
    pub is_open: bool,
}

/// A request for a statement: it is given where a database is attached.
pub open spec fn planned(db: DB, r: Result<Statement, DbError>, c: sql::Command) -> bool {
    match r {
        Ok(s) => db.is_open && s@ == c,
        Err(e) => !db.is_open && e == DbError::NotOpen,
    }
}

/// A statement with one bound value.
pub open spec fn one_value(sql: Seq<char>, v: sql::SqlValue) -> sql::Command {
    sql::Command { sql, params: seq![v] }
}

/// A statement with two bound values.
pub open spec fn two_values(sql: Seq<char>, a: sql::SqlValue, b: sql::SqlValue) -> sql::Command {
    sql::Command { sql, params: seq![a, b] }
}

/// The statement that gives back up to so many free pages, or all of them.
pub open spec fn vacuum_text(pages: Option<u32>) -> Seq<char> {
    match pages {
        Some(n) => "PRAGMA incremental_vacuum("@ + text::decimal(n as nat) + ")"@,
        None => "PRAGMA incremental_vacuum"@,
    }
}

/// The text of a query as a request for its plan.
pub open spec fn plan_text(sql: Seq<char>) -> Seq<char> {
    "EXPLAIN QUERY PLAN "@ + sql
}

impl DB {
    /// A handle without a connection.
    pub fn new(query_plan: bool) -> (r: Self)
        ensures
            r == (DB { version: SCHEMA_VERSION, query_plan, is_open: false }),
    {
        DB { version: SCHEMA_VERSION, query_plan, is_open: false }
    }

    /// Lets go of the connection; whether there was one.
    pub fn close(&mut self) -> (r: bool)
        ensures
            r == old(self).is_open,
            *final(self) == (DB { is_open: false, ..*old(self) }),
    {
        let was_open = self.is_open;
        self.is_open = false;
        was_open
    }

    /// Hands a statement on where a database is attached.
    pub fn when_open(&self, statement: Statement) -> (r: Result<Statement, DbError>)
        ensures
            planned(*self, r, statement@),
    {
        if self.is_open {
            Ok(statement)
        } else {
            Err(DbError::NotOpen)
        }
    }

    /// The three statements that give free pages back: two that have a row, and
    /// one that has none.
    pub fn run_vacuum(&self, pages: Option<u32>) -> (r: Result<
        (Statement, Statement, Statement),
        DbError,
    >)
        ensures
            match r {
                Ok(s) => {
                    &&& self.is_open
                    &&& s.0@ == sql::bare("PRAGMA wal_checkpoint(PASSIVE)"@)
                    &&& s.1@ == sql::bare(vacuum_text(pages))
                    &&& s.2@ == sql::bare("PRAGMA shrink_memory"@)
                },
                Err(e) => !self.is_open && e == DbError::NotOpen,
            },
    {
        if !self.is_open {
            return Err(DbError::NotOpen);
        }
        let vacuum: String = match pages {
            Some(n) => {
                let mut s = "PRAGMA incremental_vacuum(".to_owned();
                s.append(text::decimal_text(n as u64).as_str());
                s.append(")");
                s
            },
            None => "PRAGMA incremental_vacuum".to_owned(),
        };
        Ok(
            (
                sql::bare_statement("PRAGMA wal_checkpoint(PASSIVE)"),
                sql::bare_statement(vacuum.as_str()),
                sql::bare_statement("PRAGMA shrink_memory"),
            ),
        )
    }

    /// The statement that keeps a setting.
    pub fn set_config(&self, key: &str, value: &str) -> (r: Result<Statement, DbError>)
        ensures
            planned(
                *self,
                r,
                two_values(
                    "INSERT OR REPLACE INTO config (key, value) VALUES (?1, ?2)"@,
                    sql::SqlValue::Text(key@),
                    sql::SqlValue::Text(value@),
                ),
            ),
    {
        self.when_open(
            sql::binary_statement(
                "INSERT OR REPLACE INTO config (key, value) VALUES (?1, ?2)",
                SqlParam::Text(key.to_owned()),
                SqlParam::Text(value.to_owned()),
            ),
        )
    }

    /// The statement that reads every setting.
    pub fn get_config_list(&self) -> (r: Result<Statement, DbError>)
        ensures
            planned(*self, r, sql::bare("SELECT key, value FROM config"@)),
    {
        self.when_open(sql::bare_statement("SELECT key, value FROM config"))
    }

    /// The statement that reads one setting.
    pub fn get_config(&self, key: &str) -> (r: Result<Statement, DbError>)
        ensures
            planned(
                *self,
                r,
                one_value("SELECT value FROM config WHERE key = ?"@, sql::SqlValue::Text(key@)),
            ),
    {
        self.when_open(
            sql::unary_statement(
                "SELECT value FROM config WHERE key = ?",
                SqlParam::Text(key.to_owned()),
            ),
        )
    }

    /// The statement that keeps a piece of status data.
    pub fn set_status_data(&self, key: &str, value: &str) -> (r: Result<Statement, DbError>)
        ensures
            planned(
                *self,
                r,
                two_values(
                    "INSERT OR REPLACE INTO status_data (key, value) VALUES (?1, ?2)"@,
                    sql::SqlValue::Text(key@),
                    sql::SqlValue::Text(value@),
                ),
            ),
    {
        self.when_open(
            sql::binary_statement(
                "INSERT OR REPLACE INTO status_data (key, value) VALUES (?1, ?2)",
                SqlParam::Text(key.to_owned()),
                SqlParam::Text(value.to_owned()),
            ),
        )
    }

    /// The statement that reads all status data.
    pub fn get_status_data_list(&self) -> (r: Result<Statement, DbError>)
        ensures
            planned(*self, r, sql::bare("SELECT key, value FROM status_data"@)),
    {
        self.when_open(sql::bare_statement("SELECT key, value FROM status_data"))
    }

    /// The query for the plan of a query, where plans are logged.
    pub fn debug_query_plan(&self, sql: &str, sql_param: Vec<String>) -> (r: Option<Statement>)
        ensures
            match r {
                Some(s) => self.query_plan && s@ == (sql::Command {
                    sql: plan_text(sql@),
                    params: sql::text_values(text::texts(sql_param@)),
                }),
                None => !self.query_plan,
            },
    {
        if !self.query_plan {
            return None;
        }
        let plan = text::concat("EXPLAIN QUERY PLAN ", sql);
        Some(Statement { sql: plan, params: sql::text_params(sql_param) })
    }

    /// The statement that drops one row of the log.
    pub fn delete_domain_by_id(&self, id: u64) -> (r: Result<Statement, DbError>)
        ensures
            planned(
                *self,
                r,
                one_value("DELETE FROM domain WHERE id = ?"@, sql::SqlValue::Unsigned(id as nat)),
            ),
    {
        self.when_open(
            sql::unary_statement("DELETE FROM domain WHERE id = ?", SqlParam::Unsigned(id)),
        )
    }

    /// The statement that drops the log up to an instant; beside it stands how
    /// many pages are to be given back afterwards.
    pub fn delete_domain_before_timestamp(&self, timestamp: u64) -> (r: Result<
        (Statement, Option<u32>),
        DbError,
    >)
        ensures
            match r {
                Ok(p) => self.is_open && p.0@ == one_value(
                    DELETE_DOMAIN_SQL@,
                    sql::SqlValue::Unsigned(timestamp as nat),
                ) && p.1 == Some(PURGE_VACUUM_PAGES),
                Err(e) => !self.is_open && e == DbError::NotOpen,
            },
    {
        if !self.is_open {
            return Err(DbError::NotOpen);
        }
        Ok(
            (
                sql::unary_statement(
                    DELETE_DOMAIN_SQL,
                    SqlParam::Unsigned(timestamp),
                ),
                Some(PURGE_VACUUM_PAGES),
            ),
        )
    }

    /// The statement that drops the daily counts up to an instant.
    pub fn delete_daily_query_count_before_timestamp(&self, timestamp: u64) -> (r: Result<
        Statement,
        DbError,
    >)
        ensures
            planned(
                *self,
                r,
                one_value(
                    DELETE_DAILY_COUNT_SQL@,
                    sql::SqlValue::Unsigned(timestamp as nat),
                ),
            ),
    {
        self.when_open(
            sql::unary_statement(
                DELETE_DAILY_COUNT_SQL,
                SqlParam::Unsigned(timestamp),
            ),
        )
    }

    /// The statement that drops the hourly counts up to an instant.
    pub fn delete_hourly_query_count_before_timestamp(&self, timestamp: u64) -> (r: Result<
        Statement,
        DbError,
    >)
        ensures
            planned(
                *self,
                r,
                one_value(
                    DELETE_HOURLY_COUNT_SQL@,
                    sql::SqlValue::Unsigned(timestamp as nat),
                ),
            ),
    {
        self.when_open(
            sql::unary_statement(
                DELETE_HOURLY_COUNT_SQL,
                SqlParam::Unsigned(timestamp),
            ),
        )
    }

    /// The statement that drops one client.
    pub fn delete_client_by_id(&self, id: u64) -> (r: Result<Statement, DbError>)
        ensures
            planned(
                *self,
                r,
                one_value("DELETE FROM client WHERE id = ?"@, sql::SqlValue::Unsigned(id as nat)),
            ),
    {
        self.when_open(
            sql::unary_statement("DELETE FROM client WHERE id = ?", SqlParam::Unsigned(id)),
        )
    }

    /// The statement that reads every pair of address and hardware address, for
    /// the warm-up of the hostname cache. Only pairs with a real hardware
    /// address are read, so that observations are usable.
    pub fn get_client_ip_mac_pairs(&self) -> (r: Result<Statement, DbError>)
        ensures
            planned(
                *self,
                r,
                sql::bare(
                    CLIENT_PAIRS_SQL@,
                ),
            ),
    {
        self.when_open(
            sql::bare_statement(
                CLIENT_PAIRS_SQL,
            ),
        )
    }

    /// The statement that reads the clients whose name is still empty, for the
    /// one-shot backfill at startup.
    pub fn get_client_rows_without_hostname(&self) -> (r: Result<Statement, DbError>)
        ensures
            planned(
                *self,
                r,
                sql::bare(UNNAMED_CLIENTS_SQL@),
            ),
    {
        self.when_open(
            sql::bare_statement(UNNAMED_CLIENTS_SQL),
        )
    }

    /// The size of the database: that of its file and, where there is one, of
    /// its write-ahead log; 0 where the file is not there.
    pub fn get_db_size(file: Option<u64>, wal_file: Option<u64>) -> (r: u64)
        requires
            size_of(file) + size_of(wal_file) <= u64::MAX,
        ensures
            r == if file is Some {
                size_of(file) + size_of(wal_file)
            } else {
                0
            },
    {
        match file {
            Some(size) => match wal_file {
                Some(wal_size) => size + wal_size,
                None => size,
            },
            None => 0,
        }
    }

    /// The path of the write-ahead log of a database.
    pub fn wal_path(db_file: &str) -> (r: String)
        ensures
            r@ == db_file@ + "-wal"@,
    {
        text::concat(db_file, "-wal")
    }
}

/// The size of a file; 0 where there is none.
pub open spec fn size_of(v: Option<u64>) -> nat {
    match v {
        Some(n) => n as nat,
        None => 0,
    }
}

} // verus!
