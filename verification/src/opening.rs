//! The way of an opening: which steps it goes through, and what they set up.

use vstd::prelude::*;

use crate::error::DbError;
use crate::open;
use crate::open::{OpenEvent, OpenStep};
use crate::relational;
use crate::sql;

verus! {

/// The step that is carried out before a step, and what came of it, where the
/// step can be reached in that way.
pub open spec fn comes_before(version: i32, at: OpenStep, event: OpenEvent, next: OpenStep) -> bool {
    match next {
        OpenStep::OpenExisting => false,
        OpenStep::CreateNew => at == OpenStep::OpenExisting && event == OpenEvent::Failed,
        OpenStep::CreateSchema => at == OpenStep::CreateNew && event == OpenEvent::Done,
        OpenStep::ReadVersion => at == OpenStep::CreateSchema && event == OpenEvent::Done,
        OpenStep::CreateTable(i) => if i == 0 {
            at == OpenStep::ReadVersion && match event {
                OpenEvent::Version(Some(v)) => v >= version,
                OpenEvent::Version(None) => true,
                _ => false,
            }
        } else {
            i < 13 && at == OpenStep::CreateTable((i - 1) as usize) && event == OpenEvent::Done
        },
        OpenStep::CheckDetailTable => {
            ||| at == OpenStep::OpenExisting && event == OpenEvent::Done
            ||| at == OpenStep::CreateTable(12) && event == OpenEvent::Done
        },
        OpenStep::CreateDetailTable => at == OpenStep::CheckDetailTable && event
            == OpenEvent::Failed,
        OpenStep::SetUpConnection(i) => if i == 0 {
            ||| at == OpenStep::CheckDetailTable && event == OpenEvent::Done
            ||| at == OpenStep::CreateDetailTable
        } else {
            i < 4 && at == OpenStep::SetUpConnection((i - 1) as usize) && event == OpenEvent::Done
        },
        OpenStep::ReadAutoVacuum => at == OpenStep::SetUpConnection(3) && event == OpenEvent::Done,
        OpenStep::SetAutoVacuum => at == OpenStep::ReadAutoVacuum && (
        event matches OpenEvent::AutoVacuum(mode) && mode != 2),
        OpenStep::Vacuum => at == OpenStep::SetAutoVacuum && event == OpenEvent::Done,
        OpenStep::EnableWal => {
            ||| at == OpenStep::ReadAutoVacuum && event == OpenEvent::AutoVacuum(2)
            ||| at == OpenStep::Vacuum && event == OpenEvent::Done
        },
        OpenStep::SetCheckpoint => at == OpenStep::EnableWal && event == OpenEvent::Done,
        OpenStep::Finished => at == OpenStep::SetCheckpoint && event == OpenEvent::Done,
        OpenStep::Failed => event == OpenEvent::Failed && match at {
            OpenStep::CreateNew => true,
            OpenStep::SetUpConnection(_) => true,
            OpenStep::ReadAutoVacuum => true,
            OpenStep::SetAutoVacuum => true,
            OpenStep::Vacuum => true,
            OpenStep::EnableWal => true,
            OpenStep::SetCheckpoint => true,
            _ => false,
        },
        OpenStep::Discarded => event == OpenEvent::Failed && match at {
            OpenStep::CreateSchema => true,
            OpenStep::CreateTable(_) => true,
            _ => false,
        },
        OpenStep::Refused(e) => e == DbError::MigrationUnsupported && at == OpenStep::ReadVersion
            && (event matches OpenEvent::Version(Some(v)) && v < version),
    }
}

/// No step is left out: each step is reached from the one before it only, and
/// from nowhere else. So an opening that is finished has opened or set up the
/// file, seen to the table of summaries, set up the connection, made sure that
/// free space is given back, and switched to the write-ahead log.
pub proof fn law_no_step_is_left_out(version: i32, at: OpenStep, event: OpenEvent)
    requires
        open::may_follow(at, event),
    ensures
        comes_before(version, at, event, open::next_step(version, at, event)),
{
}

/// The event is a good one: what was to be done was done, and what was looked
/// for is there and is as it should be.
pub open spec fn is_good(version: i32, event: OpenEvent) -> bool {
    match event {
        OpenEvent::Done => true,
        OpenEvent::Failed => false,
        OpenEvent::Version(Some(v)) => v >= version,
        OpenEvent::Version(None) => true,
        OpenEvent::AutoVacuum(_) => true,
    }
}

/// The step is an end other than that of a finished opening.
pub open spec fn is_bad_end(step: OpenStep) -> bool {
    step is Failed || step is Discarded || step is Refused
}

/// An opening goes wrong only where something went wrong, and then it stops
/// there, but for a file that is not there yet and for a table of summaries
/// that is missing.
pub proof fn law_opening_goes_wrong_for_a_reason(version: i32, at: OpenStep, event: OpenEvent)
    requires
        open::may_follow(at, event),
    ensures
        is_bad_end(open::next_step(version, at, event)) <==> !is_good(version, event) && at
            != OpenStep::OpenExisting && at != OpenStep::CheckDetailTable && at
            != OpenStep::CreateDetailTable,
{
}

/// The store counts as open once the file has been opened, or set up to its last
/// statement, and neither before nor for a file that is discarded.
pub proof fn law_store_opens_with_its_file(version: i32, at: OpenStep, event: OpenEvent)
    requires
        open::may_follow(at, event),
    ensures
        open::attaches(open::next_step(version, at, event)) <==> event == OpenEvent::Done && (at
            == OpenStep::OpenExisting || at == OpenStep::CreateTable(12)),
{
}

/// The statements of the other steps: the schema version is the largest that is
/// kept, and the table of summaries is looked for and created under its name.
pub proof fn law_statements_of_an_opening(version: i32, i: usize)
    ensures
        open::step_command(version, OpenStep::CreateSchema) == Some(
            sql::bare(open::CREATE_SCHEMA_VERSION_SQL@),
        ),
        open::step_command(version, OpenStep::ReadVersion) == Some(
            sql::bare(
                relational::select(seq!["version"@], "schema_version"@)
                    + " ORDER BY version DESC"@ + " LIMIT 1"@,
            ),
        ),
        open::step_command(version, OpenStep::CreateTable(i)) == Some(
            open::table_command(version, i as int),
        ),
        open::step_command(version, OpenStep::CheckDetailTable) == Some(
            sql::bare(
                relational::select(seq!["1"@], "sqlite_master"@) + " WHERE type = 'table' AND name = '"@
                    + "domain_hourly_detail"@ + "'"@,
            ),
        ),
        open::step_command(version, OpenStep::CreateDetailTable) == Some(
            sql::bare(open::CREATE_HOURLY_DETAIL_SQL@),
        ),
        open::step_command(version, OpenStep::Vacuum) == Some(sql::bare("VACUUM"@)),
{
    reveal_strlit("SELECT ");
    reveal_strlit(" FROM ");
    let read = "SELECT version FROM schema_version ORDER BY version DESC LIMIT 1"@;
    assert(read =~= relational::select(seq!["version"@], "schema_version"@)
        + " ORDER BY version DESC"@ + " LIMIT 1"@) by {
        reveal_strlit("SELECT version FROM schema_version ORDER BY version DESC LIMIT 1");
        reveal_strlit("version");
        reveal_strlit("schema_version");
        reveal_strlit(" ORDER BY version DESC");
        reveal_strlit(" LIMIT 1");
    }
    let look = "SELECT 1 FROM sqlite_master WHERE type = 'table' AND name = 'domain_hourly_detail'"@;
    assert(look =~= relational::select(seq!["1"@], "sqlite_master"@)
        + " WHERE type = 'table' AND name = '"@ + "domain_hourly_detail"@ + "'"@) by {
        reveal_strlit(
            "SELECT 1 FROM sqlite_master WHERE type = 'table' AND name = 'domain_hourly_detail'",
        );
        reveal_strlit("1");
        reveal_strlit("sqlite_master");
        reveal_strlit(" WHERE type = 'table' AND name = '");
        reveal_strlit("domain_hourly_detail");
        reveal_strlit("'");
    }
}

/// A setting of a connection.
pub open spec fn setting(name: Seq<char>, value: Seq<char>) -> Seq<char> {
    "PRAGMA "@ + name + " = "@ + value
}

/// The settings of a connection. Free space is given back bit by bit, as the
/// mode that is looked for; the log is a write-ahead log.
pub proof fn law_settings_of_a_connection(version: i32)
    ensures
        open::step_command(version, OpenStep::SetUpConnection(0)) matches Some(c) && c.sql
            == setting("synchronous"@, "OFF"@),
        open::step_command(version, OpenStep::SetUpConnection(1)) matches Some(c) && c.sql
            == setting("page_size "@, "4096"@),
        open::step_command(version, OpenStep::SetUpConnection(2)) matches Some(c) && c.sql
            == setting("cache_size"@, "-8192"@),
        open::step_command(version, OpenStep::SetUpConnection(3)) matches Some(c) && c.sql
            == setting("temp_store"@, "MEMORY"@),
        open::step_command(version, OpenStep::ReadAutoVacuum) matches Some(c) && c.sql + " = "@
            + "INCREMENTAL"@ == setting("auto_vacuum"@, "INCREMENTAL"@),
        open::step_command(version, OpenStep::SetAutoVacuum) matches Some(c) && c.sql == setting(
            "auto_vacuum"@,
            "INCREMENTAL"@,
        ),
        open::step_command(version, OpenStep::EnableWal) matches Some(c) && c.sql == setting(
            "journal_mode"@,
            "WAL"@,
        ),
        open::step_command(version, OpenStep::SetCheckpoint) matches Some(c) && c.sql == setting(
            "wal_autocheckpoint"@,
            "1000"@,
        ),
{
    reveal_strlit("PRAGMA ");
    reveal_strlit(" = ");
    assert("PRAGMA synchronous = OFF"@ =~= setting("synchronous"@, "OFF"@)) by {
        reveal_strlit("PRAGMA synchronous = OFF");
        reveal_strlit("synchronous");
        reveal_strlit("OFF");
    }
    assert("PRAGMA page_size  = 4096"@ =~= setting("page_size "@, "4096"@)) by {
        reveal_strlit("PRAGMA page_size  = 4096");
        reveal_strlit("page_size ");
        reveal_strlit("4096");
    }
    assert("PRAGMA cache_size = -8192"@ =~= setting("cache_size"@, "-8192"@)) by {
        reveal_strlit("PRAGMA cache_size = -8192");
        reveal_strlit("cache_size");
        reveal_strlit("-8192");
    }
    assert("PRAGMA temp_store = MEMORY"@ =~= setting("temp_store"@, "MEMORY"@)) by {
        reveal_strlit("PRAGMA temp_store = MEMORY");
        reveal_strlit("temp_store");
        reveal_strlit("MEMORY");
    }
    assert("PRAGMA auto_vacuum"@ + " = "@ + "INCREMENTAL"@ =~= setting(
        "auto_vacuum"@,
        "INCREMENTAL"@,
    )) by {
        reveal_strlit("PRAGMA auto_vacuum");
        reveal_strlit("auto_vacuum");
        reveal_strlit("INCREMENTAL");
    }
    assert("PRAGMA auto_vacuum = INCREMENTAL"@ =~= setting("auto_vacuum"@, "INCREMENTAL"@)) by {
        reveal_strlit("PRAGMA auto_vacuum = INCREMENTAL");
        reveal_strlit("auto_vacuum");
        reveal_strlit("INCREMENTAL");
    }
    assert("PRAGMA journal_mode = WAL"@ =~= setting("journal_mode"@, "WAL"@)) by {
        reveal_strlit("PRAGMA journal_mode = WAL");
        reveal_strlit("journal_mode");
        reveal_strlit("WAL");
    }
    assert("PRAGMA wal_autocheckpoint = 1000"@ =~= setting("wal_autocheckpoint"@, "1000"@)) by {
        reveal_strlit("PRAGMA wal_autocheckpoint = 1000");
        reveal_strlit("wal_autocheckpoint");
        reveal_strlit("1000");
    }
}

} // verus!
