//! Errors that the store reports by itself, apart from those of the database engine.

use vstd::prelude::*;

verus! {

/// Why a request was refused.
#[derive(Debug, Clone, Copy, PartialEq, Eq, Structural)]
pub enum DbError {
    /// No database is attached.
    NotOpen,
    /// The sort order is neither `asc` nor `desc`.
    OrderParam,
    /// The cursor direction is neither `prev` nor `next`.
    CursorDirectionParam,
    /// The domain filter mode is unknown.
    DomainFilterModeParam,
    /// The database was written by an older schema.
    MigrationUnsupported,
}

/// The text that is shown for an error.
pub open spec fn error_message(e: DbError) -> Seq<char> {
    match e {
        DbError::NotOpen => "db is not open"@,
        DbError::OrderParam => "order param error"@,
        DbError::CursorDirectionParam => "cursor direction param error"@,
        DbError::DomainFilterModeParam => "domain_filter_mode param error"@,
        DbError::MigrationUnsupported =>
            "Currently Not Support Migrate Database, Please Backup DB File, And Restart Server."@,
    }
}

impl DbError {
    /// The text that is shown for this error.
    pub fn message(&self) -> (r: String)
        ensures
            r@ == error_message(*self),
    {
        let text: &str = match self {
            DbError::NotOpen => "db is not open",
            DbError::OrderParam => "order param error",
            DbError::CursorDirectionParam => "cursor direction param error",
            DbError::DomainFilterModeParam => "domain_filter_mode param error",
            DbError::MigrationUnsupported =>
                "Currently Not Support Migrate Database, Please Backup DB File, And Restart Server.",
        };
        text.to_owned()
    }
}

} // verus!
