//! Opening a database: attaching an existing file or setting up a new one, and
//! the settings of the connection.
//!
//! Opening is a row of steps. Each step is carried out by the caller, and what
//! came of it decides on the next one.

use vstd::prelude::*;
use vstd::string::*;

use crate::db;
use crate::db::DB;
use crate::error::DbError;
use crate::sql;
use crate::sql::{SqlParam, Statement};
use crate::window;

verus! {

pub const CREATE_DOMAIN_SQL: &'static str =
    "CREATE TABLE IF NOT EXISTS domain (
                id INTEGER PRIMARY KEY AUTOINCREMENT,
                timestamp BIGINT NOT NULL,
                domain TEXT NOT NULL,
                domain_type INTEGER NOT NULL,
                client TEXT NOT NULL,
                domain_group TEXT NOT NULL,
                reply_code INTEGER NOT NULL,
                query_time INTEGER NOT NULL,
                ping_time REAL NOT NULL,
                is_blocked INTEGER DEFAULT 0,
                is_cached INTEGER DEFAULT 0
            )";

pub const CREATE_DOMAIN_TIME_INDEX_SQL: &'static str =
    "CREATE INDEX IF NOT EXISTS idx_domain_timestamp ON domain (timestamp)";

pub const CREATE_DOMAIN_CLIENT_INDEX_SQL: &'static str =
    "CREATE INDEX IF NOT EXISTS idx_domain_client ON domain (client)";

pub const CREATE_HOURLY_COUNT_SQL: &'static str =
    "CREATE TABLE IF NOT EXISTS domain_hourly_count (
                timestamp BIGINT PRIMARY KEY,
                count INTEGER DEFAULT 0
            );";

pub const CREATE_DAILY_COUNT_SQL: &'static str =
    "CREATE TABLE IF NOT EXISTS domain_daily_count (
                timestamp BIGINT PRIMARY KEY,
                count INTEGER DEFAULT 0
            );";

pub const CREATE_HOURLY_DETAIL_SQL: &'static str =
    "CREATE TABLE IF NOT EXISTS domain_hourly_detail (
                hour_timestamp BIGINT NOT NULL,
                domain_group TEXT NOT NULL,
                query_count INTEGER DEFAULT 0,
                cached_count INTEGER DEFAULT 0,
                blocked_count INTEGER DEFAULT 0,
                cached_time_sum REAL DEFAULT 0,
                cached_time_count INTEGER DEFAULT 0,
                uncached_time_sum REAL DEFAULT 0,
                uncached_time_count INTEGER DEFAULT 0,
                PRIMARY KEY (hour_timestamp, domain_group)
            )";

pub const CREATE_TOP_DOMAINS_SQL: &'static str =
    "CREATE TABLE IF NOT EXISTS top_domain_list (
                domain TEXT PRIMARY KEY,
                count INTEGER DEFAULT 0,
                timestamp_start BIGINT DEFAULT 0,
                timestamp_end BIGINT DEFAULT 0
            );";

pub const CREATE_TOP_CLIENTS_SQL: &'static str =
    "CREATE TABLE IF NOT EXISTS top_client_list (
                client TEXT PRIMARY KEY,
                count INTEGER DEFAULT 0,
                timestamp_start BIGINT DEFAULT 0,
                timestamp_end BIGINT DEFAULT 0
            );";

pub const CREATE_CLIENT_SQL: &'static str =
    "
        CREATE TABLE IF NOT EXISTS client (
            id INTEGER PRIMARY KEY,
            client_ip TEXT NOT NULL,
            mac TEXT NOT NULL,
            hostname TEXT NOT NULL,
            last_query_timestamp BIGINT NOT NULL,
            UNIQUE(client_ip, mac)
        )";

pub const CREATE_CLIENT_TIME_INDEX_SQL: &'static str =
    "CREATE INDEX IF NOT EXISTS idx_client_last_query_timestamp ON client (last_query_timestamp)";

pub const CREATE_CONFIG_SQL: &'static str =
    "CREATE TABLE IF NOT EXISTS config (
                key TEXT PRIMARY KEY,
                value TEXT NOT NULL
            )";

pub const CREATE_STATUS_DATA_SQL: &'static str =
    "CREATE TABLE IF NOT EXISTS status_data (
                key TEXT PRIMARY KEY,
                value TEXT NOT NULL
            )";

pub const CREATE_SCHEMA_VERSION_SQL: &'static str =
    "CREATE TABLE IF NOT EXISTS schema_version (
                version INTEGER PRIMARY KEY
            )";

/// How many statements set up a new database behind its schema version.
pub const TABLE_STATEMENTS: usize = 13;

/// How many statements set up a connection before its space is looked at.
pub const CONNECTION_STATEMENTS: usize = 4;

/// The statements that set up a new database: its tables and indices, and last
/// its schema version.
pub open spec fn table_command(version: i32, i: int) -> sql::Command {
    if i == 0 {
        sql::bare(CREATE_DOMAIN_SQL@)
    } else if i == 1 {
        sql::bare(CREATE_DOMAIN_TIME_INDEX_SQL@)
    } else if i == 2 {
        sql::bare(CREATE_DOMAIN_CLIENT_INDEX_SQL@)
    } else if i == 3 {
        sql::bare(CREATE_HOURLY_COUNT_SQL@)
    } else if i == 4 {
        sql::bare(CREATE_DAILY_COUNT_SQL@)
    } else if i == 5 {
        sql::bare(CREATE_HOURLY_DETAIL_SQL@)
    } else if i == 6 {
        sql::bare(CREATE_TOP_DOMAINS_SQL@)
    } else if i == 7 {
        sql::bare(CREATE_TOP_CLIENTS_SQL@)
    } else if i == 8 {
        sql::bare(CREATE_CLIENT_SQL@)
    } else if i == 9 {
        sql::bare(CREATE_CLIENT_TIME_INDEX_SQL@)
    } else if i == 10 {
        sql::bare(CREATE_CONFIG_SQL@)
    } else if i == 11 {
        sql::bare(CREATE_STATUS_DATA_SQL@)
    } else {
        db::one_value(
            "INSERT INTO schema_version (version) VALUES (?)"@,
            sql::SqlValue::Integer(version as int),
        )
    }
}

/// The statements that set up a connection.
pub open spec fn connection_text(i: int) -> Seq<char> {
    if i == 0 {
        "PRAGMA synchronous = OFF"@
    } else if i == 1 {
        "PRAGMA page_size  = 4096"@
    } else if i == 2 {
        "PRAGMA cache_size = -8192"@
    } else {
        "PRAGMA temp_store = MEMORY"@
    }
}

/// A step of opening a database.
#[derive(Debug, Clone, Copy, PartialEq, Eq, Structural)]
pub enum OpenStep {
    /// Open the file for reading and writing.
    OpenExisting,
    /// Open the file for reading and writing, and create it.
    CreateNew,
    /// Create the table of the schema version.
    CreateSchema,
    /// Read the schema version.
    ReadVersion,
    /// Run one of the statements that set up a new database.
    CreateTable(usize),
    /// Look whether the table of hourly summaries is there.
    CheckDetailTable,
    /// Create the table of hourly summaries.
    CreateDetailTable,
    /// Run one of the statements that set up a connection.
    SetUpConnection(usize),
    /// Read how free space is given back.
    ReadAutoVacuum,
    /// Have free space given back bit by bit.
    SetAutoVacuum,
    /// Rewrite the file.
    Vacuum,
    /// Switch to a write-ahead log; has a row.
    EnableWal,
    /// Set how long the write-ahead log may grow; has a row.
    SetCheckpoint,
    /// The database is open.
    Finished,
    /// The engine failed; its error is the outcome.
    Failed,
    /// The engine failed on a new file: close it, remove it, and its error is the outcome.
    Discarded,
    /// A new file was refused: close it, remove it, and this error is the outcome.
    Refused(DbError),
}

/// What came of a step.
#[derive(Debug, Clone, Copy, PartialEq, Eq, Structural)]
pub enum OpenEvent {
    /// The step was carried out; for a look, what was looked for is there.
    Done,
    /// The engine failed; for a look, what was looked for is not there.
    Failed,
    /// The schema version that was read; none where it could not be read.
    Version(Option<i32>),
    /// How free space is given back.
    AutoVacuum(i32),
}

/// The event is an outcome of the step.
pub open spec fn may_follow(at: OpenStep, event: OpenEvent) -> bool {
    match at {
        OpenStep::ReadVersion => event is Version,
        OpenStep::ReadAutoVacuum => event is AutoVacuum || event is Failed,
        OpenStep::CreateTable(i) => i < TABLE_STATEMENTS && (event is Done || event is Failed),
        OpenStep::SetUpConnection(i) => i < CONNECTION_STATEMENTS && (event is Done
            || event is Failed),
        OpenStep::Finished => false,
        OpenStep::Failed => false,
        OpenStep::Discarded => false,
        OpenStep::Refused(_) => false,
        _ => event is Done || event is Failed,
    }
}

/// `step` where the last one was carried out, else a failure of the engine.
pub open spec fn unless_failed(event: OpenEvent, step: OpenStep) -> OpenStep {
    if event is Done {
        step
    } else {
        OpenStep::Failed
    }
}

/// `step` where the last one was carried out, else the new file is discarded.
pub open spec fn unless_discarded(event: OpenEvent, step: OpenStep) -> OpenStep {
    if event is Done {
        step
    } else {
        OpenStep::Discarded
    }
}

/// The schema version of a database; one that could not be read counts as that
/// of this store.
pub open spec fn found_version(version: i32, event: OpenEvent) -> i32 {
    match event {
        OpenEvent::Version(Some(v)) => v,
        _ => version,
    }
}

/// The step after a step.
pub open spec fn next_step(version: i32, at: OpenStep, event: OpenEvent) -> OpenStep {
    match at {
        OpenStep::OpenExisting => if event is Done {
            OpenStep::CheckDetailTable
        } else {
            OpenStep::CreateNew
        },
        OpenStep::CreateNew => unless_failed(event, OpenStep::CreateSchema),
        OpenStep::CreateSchema => unless_discarded(event, OpenStep::ReadVersion),
        OpenStep::ReadVersion => if found_version(version, event) >= version {
            OpenStep::CreateTable(0)
        } else {
            OpenStep::Refused(DbError::MigrationUnsupported)
        },
        OpenStep::CreateTable(i) => unless_discarded(
            event,
            if i + 1 < TABLE_STATEMENTS {
                OpenStep::CreateTable((i + 1) as usize)
            } else {
                OpenStep::CheckDetailTable
            },
        ),
        OpenStep::CheckDetailTable => if event is Done {
            OpenStep::SetUpConnection(0)
        } else {
            OpenStep::CreateDetailTable
        },
        OpenStep::CreateDetailTable => OpenStep::SetUpConnection(0),
        OpenStep::SetUpConnection(i) => unless_failed(
            event,
            if i + 1 < CONNECTION_STATEMENTS {
                OpenStep::SetUpConnection((i + 1) as usize)
            } else {
                OpenStep::ReadAutoVacuum
            },
        ),
        OpenStep::ReadAutoVacuum => match event {
            OpenEvent::AutoVacuum(mode) => if mode != 2 {
                OpenStep::SetAutoVacuum
            } else {
                OpenStep::EnableWal
            },
            _ => OpenStep::Failed,
        },
        OpenStep::SetAutoVacuum => unless_failed(event, OpenStep::Vacuum),
        OpenStep::Vacuum => unless_failed(event, OpenStep::EnableWal),
        OpenStep::EnableWal => unless_failed(event, OpenStep::SetCheckpoint),
        OpenStep::SetCheckpoint => unless_failed(event, OpenStep::Finished),
        _ => at,
    }
}

/// The connection is attached to the store when this step is reached.
pub open spec fn attaches(step: OpenStep) -> bool {
    step == OpenStep::CheckDetailTable
}

/// The statement of a step; opening a file and the outcomes have none.
pub open spec fn step_command(version: i32, step: OpenStep) -> Option<sql::Command> {
    match step {
        OpenStep::CreateSchema => Some(sql::bare(CREATE_SCHEMA_VERSION_SQL@)),
        OpenStep::ReadVersion => Some(
            sql::bare("SELECT version FROM schema_version ORDER BY version DESC LIMIT 1"@),
        ),
        OpenStep::CreateTable(i) => Some(table_command(version, i as int)),
        OpenStep::CheckDetailTable => Some(
            sql::bare(
                "SELECT 1 FROM sqlite_master WHERE type = 'table' AND name = 'domain_hourly_detail'"@,
            ),
        ),
        OpenStep::CreateDetailTable => Some(sql::bare(CREATE_HOURLY_DETAIL_SQL@)),
        OpenStep::SetUpConnection(i) => Some(sql::bare(connection_text(i as int))),
        OpenStep::ReadAutoVacuum => Some(sql::bare("PRAGMA auto_vacuum"@)),
        OpenStep::SetAutoVacuum => Some(sql::bare("PRAGMA auto_vacuum = INCREMENTAL"@)),
        OpenStep::Vacuum => Some(sql::bare("VACUUM"@)),
        OpenStep::EnableWal => Some(sql::bare("PRAGMA journal_mode = WAL"@)),
        OpenStep::SetCheckpoint => Some(sql::bare("PRAGMA wal_autocheckpoint = 1000"@)),
        _ => None,
    }
}

fn is_done(event: OpenEvent) -> (r: bool)
    ensures
        r == event is Done,
{
    match event {
        OpenEvent::Done => true,
        _ => false,
    }
}

fn or_fail(event: OpenEvent, step: OpenStep) -> (r: OpenStep)
    ensures
        r == unless_failed(event, step),
{
    if is_done(event) {
        step
    } else {
        OpenStep::Failed
    }
}

fn or_discard(event: OpenEvent, step: OpenStep) -> (r: OpenStep)
    ensures
        r == unless_discarded(event, step),
{
    if is_done(event) {
        step
    } else {
        OpenStep::Discarded
    }
}

impl DB {
    /// One of the statements that set up a new database.
    pub fn create_table(&self, i: usize) -> (r: Statement)
        requires
            i < TABLE_STATEMENTS,
        ensures
            r@ == table_command(self.version, i as int),
    {
        if i == 12 {
            return sql::unary_statement(
                "INSERT INTO schema_version (version) VALUES (?)",
                SqlParam::Integer(self.version as i64),
            );
        }
        let text: &str = if i == 0 {
            CREATE_DOMAIN_SQL
        } else if i == 1 {
            CREATE_DOMAIN_TIME_INDEX_SQL
        } else if i == 2 {
            CREATE_DOMAIN_CLIENT_INDEX_SQL
        } else if i == 3 {
            CREATE_HOURLY_COUNT_SQL
        } else if i == 4 {
            CREATE_DAILY_COUNT_SQL
        } else if i == 5 {
            CREATE_HOURLY_DETAIL_SQL
        } else if i == 6 {
            CREATE_TOP_DOMAINS_SQL
        } else if i == 7 {
            CREATE_TOP_CLIENTS_SQL
        } else if i == 8 {
            CREATE_CLIENT_SQL
        } else if i == 9 {
            CREATE_CLIENT_TIME_INDEX_SQL
        } else if i == 10 {
            CREATE_CONFIG_SQL
        } else {
            CREATE_STATUS_DATA_SQL
        };
        sql::bare_statement(text)
    }

    /// The statement that creates the table of hourly summaries.
    pub fn create_hourly_detail_table(&self) -> (r: Statement)
        ensures
            r@ == sql::bare(CREATE_HOURLY_DETAIL_SQL@),
    {
        sql::bare_statement(CREATE_HOURLY_DETAIL_SQL)
    }

    /// The step that sets up a new database whose schema version was read.
    pub fn init_db(&self, found: Option<i32>) -> (r: OpenStep)
        ensures
            r == next_step(self.version, OpenStep::ReadVersion, OpenEvent::Version(found)),
    {
        let current: i32 = match found {
            Some(v) => v,
            None => self.version,
        };
        if current >= self.version {
            OpenStep::CreateTable(0)
        } else {
            self.migrate_db()
        }
    }

    /// A database of an older schema is refused.
    pub fn migrate_db(&self) -> (r: OpenStep)
        ensures
            r == OpenStep::Refused(DbError::MigrationUnsupported),
    {
        OpenStep::Refused(DbError::MigrationUnsupported)
    }

    /// Decides on the next step of opening a database, which begins with
    /// [`OpenStep::OpenExisting`]. A file that is there is attached; one that
    /// cannot be opened is created and set up first, and removed again where
    /// that fails. That there is no table of hourly summaries does not keep a
    /// database from being opened.
    pub fn open(&mut self, at: OpenStep, event: OpenEvent) -> (r: OpenStep)
        requires
            may_follow(at, event),
        ensures
            r == next_step(old(self).version, at, event),
            *final(self) == (DB { is_open: old(self).is_open || attaches(r), ..*old(self) }),
    {
        let next = self.step_after(at, event);
        if let OpenStep::CheckDetailTable = next {
            self.is_open = true;
        }
        next
    }

    fn step_after(&self, at: OpenStep, event: OpenEvent) -> (r: OpenStep)
        requires
            may_follow(at, event),
        ensures
            r == next_step(self.version, at, event),
    {
        match at {
            OpenStep::OpenExisting => if is_done(event) {
                OpenStep::CheckDetailTable
            } else {
                OpenStep::CreateNew
            },
            OpenStep::CreateNew => or_fail(event, OpenStep::CreateSchema),
            OpenStep::CreateSchema => or_discard(event, OpenStep::ReadVersion),
            OpenStep::ReadVersion => match event {
                OpenEvent::Version(found) => self.init_db(found),
                _ => OpenStep::CreateTable(0),
            },
            OpenStep::CreateTable(i) => or_discard(
                event,
                if i + 1 < TABLE_STATEMENTS {
                    OpenStep::CreateTable(i + 1)
                } else {
                    OpenStep::CheckDetailTable
                },
            ),
            OpenStep::CheckDetailTable => if is_done(event) {
                OpenStep::SetUpConnection(0)
            } else {
                OpenStep::CreateDetailTable
            },
            OpenStep::CreateDetailTable => OpenStep::SetUpConnection(0),
            OpenStep::SetUpConnection(i) => or_fail(
                event,
                if i + 1 < CONNECTION_STATEMENTS {
                    OpenStep::SetUpConnection(i + 1)
                } else {
                    OpenStep::ReadAutoVacuum
                },
            ),
            OpenStep::ReadAutoVacuum => match event {
                OpenEvent::AutoVacuum(mode) => if mode != 2 {
                    OpenStep::SetAutoVacuum
                } else {
                    OpenStep::EnableWal
                },
                _ => OpenStep::Failed,
            },
            OpenStep::SetAutoVacuum => or_fail(event, OpenStep::Vacuum),
            OpenStep::Vacuum => or_fail(event, OpenStep::EnableWal),
            OpenStep::EnableWal => or_fail(event, OpenStep::SetCheckpoint),
            OpenStep::SetCheckpoint => or_fail(event, OpenStep::Finished),
            _ => at,
        }
    }

    /// The statement of a step, where it has one.
    pub fn open_statement(&self, step: OpenStep) -> (r: Option<Statement>)
        requires
            step matches OpenStep::CreateTable(i) ==> i < TABLE_STATEMENTS,
        ensures
            match r {
                Some(s) => step_command(self.version, step) == Some(s@),
                None => step_command(self.version, step) is None,
            },
    {
        match step {
            OpenStep::CreateSchema => Some(sql::bare_statement(CREATE_SCHEMA_VERSION_SQL)),
            OpenStep::ReadVersion => Some(
                sql::bare_statement(
                    "SELECT version FROM schema_version ORDER BY version DESC LIMIT 1",
                ),
            ),
            OpenStep::CreateTable(i) => Some(self.create_table(i)),
            OpenStep::CheckDetailTable => Some(window::hourly_detail_table_query()),
            OpenStep::CreateDetailTable => Some(self.create_hourly_detail_table()),
            OpenStep::SetUpConnection(i) => {
                let text: &str = if i == 0 {
                    "PRAGMA synchronous = OFF"
                } else if i == 1 {
                    "PRAGMA page_size  = 4096"
                } else if i == 2 {
                    "PRAGMA cache_size = -8192"
                } else {
                    "PRAGMA temp_store = MEMORY"
                };
                Some(sql::bare_statement(text))
            },
            OpenStep::ReadAutoVacuum => Some(sql::bare_statement("PRAGMA auto_vacuum")),
            OpenStep::SetAutoVacuum => Some(
                sql::bare_statement("PRAGMA auto_vacuum = INCREMENTAL"),
            ),
            OpenStep::Vacuum => Some(sql::bare_statement("VACUUM")),
            OpenStep::EnableWal => Some(sql::bare_statement("PRAGMA journal_mode = WAL")),
            OpenStep::SetCheckpoint => Some(
                sql::bare_statement("PRAGMA wal_autocheckpoint = 1000"),
            ),
            _ => None,
        }
    }
}

/// The step opens a database that is not attached yet.
pub open spec fn before_attached(step: OpenStep) -> bool {
    match step {
        OpenStep::OpenExisting => true,
        OpenStep::CreateNew => true,
        OpenStep::CreateSchema => true,
        OpenStep::ReadVersion => true,
        OpenStep::CreateTable(_) => true,
        _ => false,
    }
}

/// The file of the step was created by this opening.
pub open spec fn on_new_file(step: OpenStep) -> bool {
    before_attached(step) && step != OpenStep::OpenExisting && step != OpenStep::CreateNew
}

/// A file is removed only where it was created by this opening and has not
/// been attached.
pub proof fn law_only_a_new_file_is_removed(version: i32, at: OpenStep, event: OpenEvent)
    requires
        may_follow(at, event),
    ensures
        next_step(version, at, event) is Discarded || next_step(version, at, event) is Refused
            ==> on_new_file(at),
        on_new_file(next_step(version, at, event)) ==> at == OpenStep::CreateNew || on_new_file(at),
{
}

/// A file that is there is attached as it is: its tables are not set up again.
pub proof fn law_existing_file_is_not_set_up(version: i32, at: OpenStep, event: OpenEvent)
    requires
        may_follow(at, event),
        !before_attached(at),
    ensures
        next_step(version, OpenStep::OpenExisting, OpenEvent::Done) == OpenStep::CheckDetailTable,
        !before_attached(next_step(version, at, event)),
        !(next_step(version, at, event) is Discarded),
        !(next_step(version, at, event) is Refused),
{
}

/// A failure to create the table of hourly summaries does not stop the opening.
pub proof fn law_missing_detail_table_does_not_stop_opening(version: i32)
    ensures
        next_step(version, OpenStep::CreateDetailTable, OpenEvent::Failed) == next_step(
            version,
            OpenStep::CreateDetailTable,
            OpenEvent::Done,
        ),
        next_step(version, OpenStep::CreateDetailTable, OpenEvent::Failed)
            == OpenStep::SetUpConnection(0),
{
}

/// How far the opening has come.
pub open spec fn remaining(step: OpenStep) -> int {
    match step {
        OpenStep::OpenExisting => 100,
        OpenStep::CreateNew => 99,
        OpenStep::CreateSchema => 98,
        OpenStep::ReadVersion => 97,
        OpenStep::CreateTable(i) => 80 - i,
        OpenStep::CheckDetailTable => 60,
        OpenStep::CreateDetailTable => 59,
        OpenStep::SetUpConnection(i) => 50 - i,
        OpenStep::ReadAutoVacuum => 40,
        OpenStep::SetAutoVacuum => 39,
        OpenStep::Vacuum => 38,
        OpenStep::EnableWal => 37,
        OpenStep::SetCheckpoint => 36,
        _ => 0,
    }
}

/// Opening comes to an end: every step brings it nearer.
pub proof fn law_opening_ends(version: i32, at: OpenStep, event: OpenEvent)
    requires
        may_follow(at, event),
    ensures
        0 <= remaining(next_step(version, at, event)) < remaining(at),
{
}

/// How the table of hourly summaries is made sure of.
#[derive(Debug, Clone, Copy, PartialEq, Eq, Structural)]
pub enum DetailTableStep {
    /// Look whether it is there.
    Check,
    /// Create it.
    Create,
    /// It is there.
    Ready,
    /// It is not there: no database is attached, or it could not be created.
    Missing,
}

/// The step after a step; `done` tells whether the step succeeded.
pub open spec fn next_detail_step(at: DetailTableStep, done: bool) -> DetailTableStep {
    match at {
        DetailTableStep::Check => if done {
            DetailTableStep::Ready
        } else {
            DetailTableStep::Create
        },
        DetailTableStep::Create => if done {
            DetailTableStep::Ready
        } else {
            DetailTableStep::Missing
        },
        _ => at,
    }
}

impl DB {
    /// The first step of making sure of the table of hourly summaries.
    pub fn ensure_hourly_detail_table(&self) -> (r: DetailTableStep)
        ensures
            r == if self.is_open {
                DetailTableStep::Check
            } else {
                DetailTableStep::Missing
            },
    {
        if self.is_open {
            DetailTableStep::Check
        } else {
            DetailTableStep::Missing
        }
    }
}

impl DetailTableStep {
    /// The step after this one; `done` tells whether this one succeeded.
    pub fn after(self, done: bool) -> (r: DetailTableStep)
        ensures
            r == next_detail_step(self, done),
    {
        match self {
            DetailTableStep::Check => if done {
                DetailTableStep::Ready
            } else {
                DetailTableStep::Create
            },
            DetailTableStep::Create => if done {
                DetailTableStep::Ready
            } else {
                DetailTableStep::Missing
            },
            other => other,
        }
    }
}

} // verus!
