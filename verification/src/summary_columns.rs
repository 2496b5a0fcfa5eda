//! Which columns the hourly summaries are written to and read from, and which
//! rows of the log and of the summaries are read for a report.

use vstd::prelude::*;

use crate::detail::{HourlyDetailGroupAgg, ScanRow};
use crate::domain_filter;
use crate::model::DomainData;
use crate::relational;
use crate::relational::{Cell, Renewal};
use crate::report_run;
use crate::sql;
use crate::summary;
use crate::text;
use crate::window;
use crate::window::StoredRow;

verus! {

/// The columns of the summaries, in the order in which they are written and read.
pub open spec fn columns() -> Seq<Seq<char>> {
    seq![
        "hour_timestamp"@,
        "domain_group"@,
        "query_count"@,
        "cached_count"@,
        "blocked_count"@,
        "cached_time_sum"@,
        "cached_time_count"@,
        "uncached_time_sum"@,
        "uncached_time_count"@,
    ]
}

/// The columns by which a summary is found.
pub open spec fn key_columns() -> Seq<Seq<char>> {
    seq!["hour_timestamp"@, "domain_group"@]
}

/// How the columns of a summary that is there are written over.
pub open spec fn renewals() -> Seq<Seq<char>> {
    seq![
        relational::written_renewal("query_count"@, Renewal::Always),
        relational::written_renewal("cached_count"@, Renewal::Always),
        relational::written_renewal("blocked_count"@, Renewal::Always),
        relational::written_renewal("cached_time_sum"@, Renewal::Always),
        relational::written_renewal("cached_time_count"@, Renewal::Always),
        relational::written_renewal("uncached_time_sum"@, Renewal::Always),
        relational::written_renewal("uncached_time_count"@, Renewal::Always),
    ]
}

/// The columns of the figures of an hour and a group, by their names.
pub open spec fn figure_column(a: HourlyDetailGroupAgg) -> spec_fn(Seq<char>) -> Cell {
    |name: Seq<char>|
        if name == "hour_timestamp"@ {
            Cell::Number(a.hour_timestamp as int)
        } else if name == "domain_group"@ {
            Cell::Text(a.domain_group@)
        } else if name == "query_count"@ {
            Cell::Number(a.query_count as int)
        } else if name == "cached_count"@ {
            Cell::Number(a.cached_count as int)
        } else if name == "blocked_count"@ {
            Cell::Number(a.blocked_count as int)
        } else if name == "cached_time_sum"@ {
            Cell::Real(a.cached_time_sum)
        } else if name == "cached_time_count"@ {
            Cell::Number(a.cached_time_count as int)
        } else if name == "uncached_time_sum"@ {
            Cell::Real(a.uncached_time_sum)
        } else {
            Cell::Number(a.uncached_time_count as int)
        }
}

proof fn lemma_figure_columns(a: HourlyDetailGroupAgg)
    ensures
        figure_column(a)("hour_timestamp"@) == Cell::Number(a.hour_timestamp as int),
        figure_column(a)("domain_group"@) == Cell::Text(a.domain_group@),
        figure_column(a)("query_count"@) == Cell::Number(a.query_count as int),
        figure_column(a)("cached_count"@) == Cell::Number(a.cached_count as int),
        figure_column(a)("blocked_count"@) == Cell::Number(a.blocked_count as int),
        figure_column(a)("cached_time_sum"@) == Cell::Real(a.cached_time_sum),
        figure_column(a)("cached_time_count"@) == Cell::Number(a.cached_time_count as int),
        figure_column(a)("uncached_time_sum"@) == Cell::Real(a.uncached_time_sum),
        figure_column(a)("uncached_time_count"@) == Cell::Number(a.uncached_time_count as int),
{
    reveal_strlit("hour_timestamp");
    reveal_strlit("domain_group");
    reveal_strlit("query_count");
    reveal_strlit("cached_count");
    reveal_strlit("blocked_count");
    reveal_strlit("cached_time_sum");
    reveal_strlit("cached_time_count");
    reveal_strlit("uncached_time_sum");
    reveal_strlit("uncached_time_count");
    assert("hour_timestamp"@.len() == 14 && "domain_group"@.len() == 12 && "query_count"@.len() == 11);
    assert("cached_count"@.len() == 12 && "blocked_count"@.len() == 13 && "cached_time_sum"@.len() == 15);
    assert("cached_time_count"@.len() == 17 && "uncached_time_sum"@.len() == 17 && "uncached_time_count"@.len() == 19);
    assert("domain_group"@[0] != "cached_count"@[0]);
    assert("cached_time_count"@[0] != "uncached_time_sum"@[0]);
}

proof fn lemma_columns_listed()
    ensures
        relational::listed(columns(), 9) == "hour_timestamp, domain_group, query_count, cached_count, blocked_count, cached_time_sum, cached_time_count, uncached_time_sum, uncached_time_count"@,
{
    let c = columns();
    assert(relational::listed(c, 3) == "hour_timestamp, domain_group, query_count"@) by {
        reveal_with_fuel(relational::listed, 4);
        reveal_strlit("hour_timestamp, domain_group, query_count");
        reveal_strlit(", ");
        reveal_strlit("hour_timestamp");
        reveal_strlit("domain_group");
        reveal_strlit("query_count");
        assert(relational::listed(c, 3) =~= "hour_timestamp, domain_group, query_count"@);
    }
    assert(relational::listed(c, 6) == "hour_timestamp, domain_group, query_count, cached_count, blocked_count, cached_time_sum"@) by {
        reveal_with_fuel(relational::listed, 4);
        reveal_strlit("hour_timestamp, domain_group, query_count");
        reveal_strlit("hour_timestamp, domain_group, query_count, cached_count, blocked_count, cached_time_sum");
        reveal_strlit(", ");
        reveal_strlit("cached_count");
        reveal_strlit("blocked_count");
        reveal_strlit("cached_time_sum");
        assert(relational::listed(c, 6) =~= "hour_timestamp, domain_group, query_count, cached_count, blocked_count, cached_time_sum"@);
    }
    assert(relational::listed(c, 9) == "hour_timestamp, domain_group, query_count, cached_count, blocked_count, cached_time_sum, cached_time_count, uncached_time_sum, uncached_time_count"@) by {
        reveal_with_fuel(relational::listed, 4);
        reveal_strlit("hour_timestamp, domain_group, query_count, cached_count, blocked_count, cached_time_sum");
        reveal_strlit("hour_timestamp, domain_group, query_count, cached_count, blocked_count, cached_time_sum, cached_time_count, uncached_time_sum, uncached_time_count");
        reveal_strlit(", ");
        reveal_strlit("cached_time_count");
        reveal_strlit("uncached_time_sum");
        reveal_strlit("uncached_time_count");
        assert(relational::listed(c, 9) =~= "hour_timestamp, domain_group, query_count, cached_count, blocked_count, cached_time_sum, cached_time_count, uncached_time_sum, uncached_time_count"@);
    }
}

proof fn lemma_nine_places()
    ensures
        relational::numbered(9) == "?1, ?2, ?3, ?4, ?5, ?6, ?7, ?8, ?9"@,
{
    assert(relational::numbered(3) == "?1, ?2, ?3"@) by {
        reveal_with_fuel(relational::numbered, 4);
        reveal_with_fuel(text::decimal, 2);
        reveal_strlit("?1, ?2, ?3");
        reveal_strlit(", ?");
        reveal_strlit("?1");
        assert(relational::numbered(3) =~= "?1, ?2, ?3"@);
    }
    assert(relational::numbered(6) == "?1, ?2, ?3, ?4, ?5, ?6"@) by {
        reveal_with_fuel(relational::numbered, 4);
        reveal_with_fuel(text::decimal, 2);
        reveal_strlit("?1, ?2, ?3");
        reveal_strlit("?1, ?2, ?3, ?4, ?5, ?6");
        reveal_strlit(", ?");
        reveal_strlit("?1");
        assert(relational::numbered(6) =~= "?1, ?2, ?3, ?4, ?5, ?6"@);
    }
    assert(relational::numbered(9) == "?1, ?2, ?3, ?4, ?5, ?6, ?7, ?8, ?9"@) by {
        reveal_with_fuel(relational::numbered, 4);
        reveal_with_fuel(text::decimal, 2);
        reveal_strlit("?1, ?2, ?3, ?4, ?5, ?6");
        reveal_strlit("?1, ?2, ?3, ?4, ?5, ?6, ?7, ?8, ?9");
        reveal_strlit(", ?");
        reveal_strlit("?1");
        assert(relational::numbered(9) =~= "?1, ?2, ?3, ?4, ?5, ?6, ?7, ?8, ?9"@);
    }
}

proof fn lemma_insert_text()
    ensures
        "INSERT INTO domain_hourly_detail (hour_timestamp, domain_group, query_count, cached_count, blocked_count, cached_time_sum, cached_time_count, uncached_time_sum, uncached_time_count) VALUES (?1, ?2, ?3, ?4, ?5, ?6, ?7, ?8, ?9)"@
            == relational::insert("domain_hourly_detail"@, columns()),
{
    lemma_columns_listed();
    lemma_nine_places();
    reveal_strlit("INSERT INTO domain_hourly_detail (hour_timestamp, domain_group, query_count, cached_count, blocked_count, cached_time_sum, cached_time_count, uncached_time_sum, uncached_time_count) VALUES (?1, ?2, ?3, ?4, ?5, ?6, ?7, ?8, ?9)");
    reveal_strlit("hour_timestamp, domain_group, query_count, cached_count, blocked_count, cached_time_sum, cached_time_count, uncached_time_sum, uncached_time_count");
    reveal_strlit("?1, ?2, ?3, ?4, ?5, ?6, ?7, ?8, ?9");
    reveal_strlit("INSERT INTO ");
    reveal_strlit("domain_hourly_detail");
    reveal_strlit(" (");
    reveal_strlit(") VALUES (");
    reveal_strlit(")");
    assert("INSERT INTO domain_hourly_detail (hour_timestamp, domain_group, query_count, cached_count, blocked_count, cached_time_sum, cached_time_count, uncached_time_sum, uncached_time_count) VALUES (?1, ?2, ?3, ?4, ?5, ?6, ?7, ?8, ?9)"@
        =~= relational::insert("domain_hourly_detail"@, columns()));
}

proof fn lemma_renewals()
    ensures
        renewals() == seq![
            "query_count = excluded.query_count"@,
            "cached_count = excluded.cached_count"@,
            "blocked_count = excluded.blocked_count"@,
            "cached_time_sum = excluded.cached_time_sum"@,
            "cached_time_count = excluded.cached_time_count"@,
            "uncached_time_sum = excluded.uncached_time_sum"@,
            "uncached_time_count = excluded.uncached_time_count"@,
        ],
{
    reveal_strlit(" = excluded.");
    assert("query_count = excluded.query_count"@ == "query_count"@ + " = excluded."@ + "query_count"@) by {
        reveal_strlit("query_count = excluded.query_count");
        reveal_strlit("query_count");
        assert("query_count = excluded.query_count"@ =~= "query_count"@ + " = excluded."@ + "query_count"@);
    }
    assert("cached_count = excluded.cached_count"@ == "cached_count"@ + " = excluded."@ + "cached_count"@) by {
        reveal_strlit("cached_count = excluded.cached_count");
        reveal_strlit("cached_count");
        assert("cached_count = excluded.cached_count"@ =~= "cached_count"@ + " = excluded."@ + "cached_count"@);
    }
    assert("blocked_count = excluded.blocked_count"@ == "blocked_count"@ + " = excluded."@ + "blocked_count"@) by {
        reveal_strlit("blocked_count = excluded.blocked_count");
        reveal_strlit("blocked_count");
        assert("blocked_count = excluded.blocked_count"@ =~= "blocked_count"@ + " = excluded."@ + "blocked_count"@);
    }
    assert("cached_time_sum = excluded.cached_time_sum"@ == "cached_time_sum"@ + " = excluded."@ + "cached_time_sum"@) by {
        reveal_strlit("cached_time_sum = excluded.cached_time_sum");
        reveal_strlit("cached_time_sum");
        assert("cached_time_sum = excluded.cached_time_sum"@ =~= "cached_time_sum"@ + " = excluded."@ + "cached_time_sum"@);
    }
    assert("cached_time_count = excluded.cached_time_count"@ == "cached_time_count"@ + " = excluded."@ + "cached_time_count"@) by {
        reveal_strlit("cached_time_count = excluded.cached_time_count");
        reveal_strlit("cached_time_count");
        assert("cached_time_count = excluded.cached_time_count"@ =~= "cached_time_count"@ + " = excluded."@ + "cached_time_count"@);
    }
    assert("uncached_time_sum = excluded.uncached_time_sum"@ == "uncached_time_sum"@ + " = excluded."@ + "uncached_time_sum"@) by {
        reveal_strlit("uncached_time_sum = excluded.uncached_time_sum");
        reveal_strlit("uncached_time_sum");
        assert("uncached_time_sum = excluded.uncached_time_sum"@ =~= "uncached_time_sum"@ + " = excluded."@ + "uncached_time_sum"@);
    }
    assert("uncached_time_count = excluded.uncached_time_count"@ == "uncached_time_count"@ + " = excluded."@ + "uncached_time_count"@) by {
        reveal_strlit("uncached_time_count = excluded.uncached_time_count");
        reveal_strlit("uncached_time_count");
        assert("uncached_time_count = excluded.uncached_time_count"@ =~= "uncached_time_count"@ + " = excluded."@ + "uncached_time_count"@);
    }
    assert(renewals() =~= seq![
        "query_count = excluded.query_count"@,
        "cached_count = excluded.cached_count"@,
        "blocked_count = excluded.blocked_count"@,
        "cached_time_sum = excluded.cached_time_sum"@,
        "cached_time_count = excluded.cached_time_count"@,
        "uncached_time_sum = excluded.uncached_time_sum"@,
        "uncached_time_count = excluded.uncached_time_count"@,
    ]);
}

proof fn lemma_renewals_listed()
    ensures
        relational::listed(renewals(), 7) == "query_count = excluded.query_count, cached_count = excluded.cached_count, blocked_count = excluded.blocked_count, cached_time_sum = excluded.cached_time_sum, cached_time_count = excluded.cached_time_count, uncached_time_sum = excluded.uncached_time_sum, uncached_time_count = excluded.uncached_time_count"@,
{
    lemma_renewals();
    let c = renewals();
    assert(relational::listed(c, 1) == "query_count = excluded.query_count"@) by {
        reveal_with_fuel(relational::listed, 2);
        reveal_strlit("query_count = excluded.query_count");
        reveal_strlit(", ");
        assert(relational::listed(c, 1) =~= "query_count = excluded.query_count"@);
    }
    assert(relational::listed(c, 2) == "query_count = excluded.query_count, cached_count = excluded.cached_count"@) by {
        reveal_with_fuel(relational::listed, 2);
        reveal_strlit("query_count = excluded.query_count");
        reveal_strlit("query_count = excluded.query_count, cached_count = excluded.cached_count");
        reveal_strlit(", ");
        reveal_strlit("cached_count = excluded.cached_count");
        assert(relational::listed(c, 2) =~= "query_count = excluded.query_count, cached_count = excluded.cached_count"@);
    }
    assert(relational::listed(c, 3) == "query_count = excluded.query_count, cached_count = excluded.cached_count, blocked_count = excluded.blocked_count"@) by {
        reveal_with_fuel(relational::listed, 2);
        reveal_strlit("query_count = excluded.query_count, cached_count = excluded.cached_count");
        reveal_strlit("query_count = excluded.query_count, cached_count = excluded.cached_count, blocked_count = excluded.blocked_count");
        reveal_strlit(", ");
        reveal_strlit("blocked_count = excluded.blocked_count");
        assert(relational::listed(c, 3) =~= "query_count = excluded.query_count, cached_count = excluded.cached_count, blocked_count = excluded.blocked_count"@);
    }
    assert(relational::listed(c, 4) == "query_count = excluded.query_count, cached_count = excluded.cached_count, blocked_count = excluded.blocked_count, cached_time_sum = excluded.cached_time_sum"@) by {
        reveal_with_fuel(relational::listed, 2);
        reveal_strlit("query_count = excluded.query_count, cached_count = excluded.cached_count, blocked_count = excluded.blocked_count");
        reveal_strlit("query_count = excluded.query_count, cached_count = excluded.cached_count, blocked_count = excluded.blocked_count, cached_time_sum = excluded.cached_time_sum");
        reveal_strlit(", ");
        reveal_strlit("cached_time_sum = excluded.cached_time_sum");
        assert(relational::listed(c, 4) =~= "query_count = excluded.query_count, cached_count = excluded.cached_count, blocked_count = excluded.blocked_count, cached_time_sum = excluded.cached_time_sum"@);
    }
    assert(relational::listed(c, 5) == "query_count = excluded.query_count, cached_count = excluded.cached_count, blocked_count = excluded.blocked_count, cached_time_sum = excluded.cached_time_sum, cached_time_count = excluded.cached_time_count"@) by {
        reveal_with_fuel(relational::listed, 2);
        reveal_strlit("query_count = excluded.query_count, cached_count = excluded.cached_count, blocked_count = excluded.blocked_count, cached_time_sum = excluded.cached_time_sum");
        reveal_strlit("query_count = excluded.query_count, cached_count = excluded.cached_count, blocked_count = excluded.blocked_count, cached_time_sum = excluded.cached_time_sum, cached_time_count = excluded.cached_time_count");
        reveal_strlit(", ");
        reveal_strlit("cached_time_count = excluded.cached_time_count");
        assert(relational::listed(c, 5) =~= "query_count = excluded.query_count, cached_count = excluded.cached_count, blocked_count = excluded.blocked_count, cached_time_sum = excluded.cached_time_sum, cached_time_count = excluded.cached_time_count"@);
    }
    assert(relational::listed(c, 6) == "query_count = excluded.query_count, cached_count = excluded.cached_count, blocked_count = excluded.blocked_count, cached_time_sum = excluded.cached_time_sum, cached_time_count = excluded.cached_time_count, uncached_time_sum = excluded.uncached_time_sum"@) by {
        reveal_with_fuel(relational::listed, 2);
        reveal_strlit("query_count = excluded.query_count, cached_count = excluded.cached_count, blocked_count = excluded.blocked_count, cached_time_sum = excluded.cached_time_sum, cached_time_count = excluded.cached_time_count");
        reveal_strlit("query_count = excluded.query_count, cached_count = excluded.cached_count, blocked_count = excluded.blocked_count, cached_time_sum = excluded.cached_time_sum, cached_time_count = excluded.cached_time_count, uncached_time_sum = excluded.uncached_time_sum");
        reveal_strlit(", ");
        reveal_strlit("uncached_time_sum = excluded.uncached_time_sum");
        assert(relational::listed(c, 6) =~= "query_count = excluded.query_count, cached_count = excluded.cached_count, blocked_count = excluded.blocked_count, cached_time_sum = excluded.cached_time_sum, cached_time_count = excluded.cached_time_count, uncached_time_sum = excluded.uncached_time_sum"@);
    }
    assert(relational::listed(c, 7) == "query_count = excluded.query_count, cached_count = excluded.cached_count, blocked_count = excluded.blocked_count, cached_time_sum = excluded.cached_time_sum, cached_time_count = excluded.cached_time_count, uncached_time_sum = excluded.uncached_time_sum, uncached_time_count = excluded.uncached_time_count"@) by {
        reveal_with_fuel(relational::listed, 2);
        reveal_strlit("query_count = excluded.query_count, cached_count = excluded.cached_count, blocked_count = excluded.blocked_count, cached_time_sum = excluded.cached_time_sum, cached_time_count = excluded.cached_time_count, uncached_time_sum = excluded.uncached_time_sum");
        reveal_strlit("query_count = excluded.query_count, cached_count = excluded.cached_count, blocked_count = excluded.blocked_count, cached_time_sum = excluded.cached_time_sum, cached_time_count = excluded.cached_time_count, uncached_time_sum = excluded.uncached_time_sum, uncached_time_count = excluded.uncached_time_count");
        reveal_strlit(", ");
        reveal_strlit("uncached_time_count = excluded.uncached_time_count");
        assert(relational::listed(c, 7) =~= "query_count = excluded.query_count, cached_count = excluded.cached_count, blocked_count = excluded.blocked_count, cached_time_sum = excluded.cached_time_sum, cached_time_count = excluded.cached_time_count, uncached_time_sum = excluded.uncached_time_sum, uncached_time_count = excluded.uncached_time_count"@);
    }
}

/// The statement that writes a summary binds a value to each column, and writes
/// each figure over that of the summary with the same hour and group.
pub proof fn law_statement_that_writes_a_summary()
    ensures
        summary::HOURLY_DETAIL_UPSERT_SQL@ == relational::insert("domain_hourly_detail"@, columns())
            + " ON CONFLICT("@ + relational::listed(key_columns(), 2) + ") DO UPDATE SET "@
            + relational::listed(renewals(), 7),
{
    lemma_insert_text();
    lemma_renewals_listed();
    assert(relational::listed(key_columns(), 2) == "hour_timestamp, domain_group"@) by {
        reveal_with_fuel(relational::listed, 3);
        reveal_strlit("hour_timestamp");
        reveal_strlit(", ");
        reveal_strlit("domain_group");
        reveal_strlit("hour_timestamp, domain_group");
        assert(relational::listed(key_columns(), 2) =~= "hour_timestamp, domain_group"@);
    }
    let head = "INSERT INTO domain_hourly_detail (hour_timestamp, domain_group, query_count, cached_count, blocked_count, cached_time_sum, cached_time_count, uncached_time_sum, uncached_time_count) VALUES (?1, ?2, ?3, ?4, ?5, ?6, ?7, ?8, ?9)"@;
    let middle = " ON CONFLICT("@ + "hour_timestamp, domain_group"@ + ") DO UPDATE SET "@;
    let tail = "query_count = excluded.query_count, cached_count = excluded.cached_count, blocked_count = excluded.blocked_count, cached_time_sum = excluded.cached_time_sum, cached_time_count = excluded.cached_time_count, uncached_time_sum = excluded.uncached_time_sum, uncached_time_count = excluded.uncached_time_count"@;
    assert(summary::HOURLY_DETAIL_UPSERT_SQL@ =~= head + middle + tail) by {
        reveal_strlit("INSERT INTO domain_hourly_detail (hour_timestamp, domain_group, query_count, cached_count, blocked_count, cached_time_sum, cached_time_count, uncached_time_sum, uncached_time_count) VALUES (?1, ?2, ?3, ?4, ?5, ?6, ?7, ?8, ?9) ON CONFLICT(hour_timestamp, domain_group) DO UPDATE SET query_count = excluded.query_count, cached_count = excluded.cached_count, blocked_count = excluded.blocked_count, cached_time_sum = excluded.cached_time_sum, cached_time_count = excluded.cached_time_count, uncached_time_sum = excluded.uncached_time_sum, uncached_time_count = excluded.uncached_time_count");
        reveal_strlit("INSERT INTO domain_hourly_detail (hour_timestamp, domain_group, query_count, cached_count, blocked_count, cached_time_sum, cached_time_count, uncached_time_sum, uncached_time_count) VALUES (?1, ?2, ?3, ?4, ?5, ?6, ?7, ?8, ?9)");
        reveal_strlit(" ON CONFLICT(");
        reveal_strlit("hour_timestamp, domain_group");
        reveal_strlit(") DO UPDATE SET ");
        reveal_strlit("query_count = excluded.query_count, cached_count = excluded.cached_count, blocked_count = excluded.blocked_count, cached_time_sum = excluded.cached_time_sum, cached_time_count = excluded.cached_time_count, uncached_time_sum = excluded.uncached_time_sum, uncached_time_count = excluded.uncached_time_count");
    }
    assert(head + middle + tail =~= head + " ON CONFLICT("@ + "hour_timestamp, domain_group"@
        + ") DO UPDATE SET "@ + tail);
}

/// The numbers of the figures are signed numbers.
pub open spec fn is_storable(a: HourlyDetailGroupAgg) -> bool {
    &&& a.hour_timestamp <= i64::MAX
    &&& a.query_count <= i64::MAX
    &&& a.cached_count <= i64::MAX
    &&& a.blocked_count <= i64::MAX
    &&& a.cached_time_count <= i64::MAX
    &&& a.uncached_time_count <= i64::MAX
}

/// Each figure that is bound to the statement that writes a summary stands at
/// the place of its column.
pub proof fn law_figures_stand_at_their_columns(a: HourlyDetailGroupAgg)
    requires
        is_storable(a),
    ensures
        relational::placed(columns(), summary::agg_values(a), figure_column(a)),
{
    lemma_figure_columns(a);
    let columns = columns();
    let values = summary::agg_values(a);
    let row = figure_column(a);
    assert forall|i: int| 0 <= i < columns.len() implies relational::is_cell(
        #[trigger] values[i],
        row(columns[i]),
    ) by {
        if i == 0 {
        } else if i == 1 {
        } else if i == 2 {
        } else if i == 3 {
        } else if i == 4 {
        } else if i == 5 {
        } else if i == 6 {
        } else if i == 7 {
        } else {
            assert(i == 8);
        }
    }
}

/// The row was read by the places of its columns.
pub open spec fn is_read_from(row: StoredRow, cells: Seq<Cell>) -> bool {
    &&& cells.len() == 9
    &&& cells[0] == Cell::Number(row.hour_timestamp as int)
    &&& cells[1] == Cell::Text(row.domain_group@)
    &&& row.query_count matches Some(n) && cells[2] == Cell::Number(n as int)
    &&& row.cached_count matches Some(n) && cells[3] == Cell::Number(n as int)
    &&& row.blocked_count matches Some(n) && cells[4] == Cell::Number(n as int)
    &&& row.cached_time_sum matches Some(t) && cells[5] == Cell::Real(t)
    &&& row.cached_time_count matches Some(n) && cells[6] == Cell::Number(n as int)
    &&& row.uncached_time_sum matches Some(t) && cells[7] == Cell::Real(t)
    &&& row.uncached_time_count matches Some(n) && cells[8] == Cell::Number(n as int)
}

/// Figures that are read from the table are those that were written to it.
pub proof fn law_written_figures_are_read_back(a: HourlyDetailGroupAgg, row: StoredRow)
    requires
        is_storable(a),
        is_read_from(row, relational::cells(columns(), figure_column(a))),
    ensures
        ({
            let r = window::row_figures(row);
            &&& r.domain_group@ == a.domain_group@
            &&& r == (HourlyDetailGroupAgg { domain_group: r.domain_group, ..a })
        }),
{
    lemma_figure_columns(a);
    let cells = relational::cells(columns(), figure_column(a));
    assert(cells[0] == figure_column(a)("hour_timestamp"@));
    assert(cells[1] == figure_column(a)("domain_group"@));
    assert(cells[2] == figure_column(a)("query_count"@));
    assert(cells[3] == figure_column(a)("cached_count"@));
    assert(cells[4] == figure_column(a)("blocked_count"@));
    assert(cells[5] == figure_column(a)("cached_time_sum"@));
    assert(cells[6] == figure_column(a)("cached_time_count"@));
    assert(cells[7] == figure_column(a)("uncached_time_sum"@));
    assert(cells[8] == figure_column(a)("uncached_time_count"@));
}

/// A query for columns of the rows of a span, by a column of times.
pub open spec fn select_span(
    columns: Seq<Seq<char>>,
    table: Seq<char>,
    time: Seq<char>,
) -> Seq<char> {
    relational::select(columns, table) + " WHERE "@ + time + " >= ?1 AND "@ + time + " < ?2"@
}

/// The query reads the rows whose time is one of these.
pub open spec fn reads_times(q: sql::Command, from: int, up_to: int) -> bool {
    q.params == seq![sql::SqlValue::Integer(from), sql::SqlValue::Integer(up_to)]
}

proof fn lemma_stored_text()
    ensures
        window::HOURLY_DETAIL_STORED_SQL@ == select_span(
            columns(),
            "domain_hourly_detail"@,
            "hour_timestamp"@,
        ),
{
    lemma_columns_listed();
    reveal_strlit("SELECT hour_timestamp, domain_group, query_count, cached_count, blocked_count, cached_time_sum, cached_time_count, uncached_time_sum, uncached_time_count FROM domain_hourly_detail WHERE hour_timestamp >= ?1 AND hour_timestamp < ?2");
    reveal_strlit("hour_timestamp, domain_group, query_count, cached_count, blocked_count, cached_time_sum, cached_time_count, uncached_time_sum, uncached_time_count");
    reveal_strlit("SELECT ");
    reveal_strlit(" FROM ");
    reveal_strlit("domain_hourly_detail");
    reveal_strlit(" WHERE ");
    reveal_strlit("hour_timestamp");
    reveal_strlit(" >= ?1 AND ");
    reveal_strlit(" < ?2");
    assert(window::HOURLY_DETAIL_STORED_SQL@ =~= select_span(
        columns(),
        "domain_hourly_detail"@,
        "hour_timestamp"@,
    ));
}

/// The summaries that are read for a report are those of the hours behind the
/// one in which the window begins and before the one that has not ended; both
/// of these are read from the log.
pub proof fn law_summaries_of_finished_hours_are_read(
    now_ms: u64,
    local_offset_secs: i64,
    start: u64,
    hour: u64,
)
    requires
        start <= now_ms <= i64::MAX,
        start >= (start + local_offset_secs * 1000) % 3_600_000,
        (hour + local_offset_secs * 1000) % 3_600_000 == 0,
    ensures
        ({
            let w = window::window_from(now_ms, local_offset_secs, start);
            let q = report_run::stored_command(w);
            &&& q.sql == select_span(columns(), "domain_hourly_detail"@, "hour_timestamp"@)
            &&& exists|from: int, up_to: int| #[trigger]
                reads_times(q, from, up_to) && (from <= hour < up_to <==> hour > start && now_ms
                    >= hour + 3_600_000)
        }),
{
    lemma_stored_text();
    let w = window::window_from(now_ms, local_offset_secs, start);
    let q = report_run::stored_command(w);
    let d = local_offset_secs * 1000;
    assert(w.boundary_hour == start - (start + d) % 3_600_000);
    assert(now_ms - (now_ms + d) % 3_600_000 >= start - (start + d) % 3_600_000);
    assert(w.current_hour == now_ms - (now_ms + d) % 3_600_000);
    assert(q.params =~= seq![
        sql::SqlValue::Integer(w.stored_from as int),
        sql::SqlValue::Integer(w.current_hour as int),
    ]);
    assert(reads_times(q, w.stored_from as int, w.current_hour as int));
}

/// The columns of the log that are read to be summed up, in their order.
pub open spec fn scanned_columns() -> Seq<Seq<char>> {
    seq!["timestamp"@, "domain_group"@, "is_cached"@, "is_blocked"@, "query_time"@]
}

proof fn lemma_scan_text()
    ensures
        window::HOURLY_DETAIL_SCAN_SQL@ == select_span(
            scanned_columns(),
            "domain"@,
            "timestamp"@,
        ),
{
    assert(relational::listed(scanned_columns(), 5) == "timestamp, domain_group, is_cached, is_blocked, query_time"@) by {
        let c = scanned_columns();
        assert(relational::listed(c, 3) == "timestamp, domain_group, is_cached"@) by {
            reveal_with_fuel(relational::listed, 4);
            reveal_strlit("timestamp, domain_group, is_cached");
            reveal_strlit(", ");
            reveal_strlit("timestamp");
            reveal_strlit("domain_group");
            reveal_strlit("is_cached");
            assert(relational::listed(c, 3) =~= "timestamp, domain_group, is_cached"@);
        }
        assert(relational::listed(c, 5) == "timestamp, domain_group, is_cached, is_blocked, query_time"@) by {
            reveal_with_fuel(relational::listed, 3);
            reveal_strlit("timestamp, domain_group, is_cached");
            reveal_strlit("timestamp, domain_group, is_cached, is_blocked, query_time");
            reveal_strlit(", ");
            reveal_strlit("is_blocked");
            reveal_strlit("query_time");
            assert(relational::listed(c, 5) =~= "timestamp, domain_group, is_cached, is_blocked, query_time"@);
        }
    }
    reveal_strlit("SELECT timestamp, domain_group, is_cached, is_blocked, query_time FROM domain WHERE timestamp >= ?1 AND timestamp < ?2");
    reveal_strlit("timestamp, domain_group, is_cached, is_blocked, query_time");
    reveal_strlit("SELECT ");
    reveal_strlit(" FROM ");
    reveal_strlit("domain");
    reveal_strlit(" WHERE ");
    reveal_strlit("timestamp");
    reveal_strlit(" >= ?1 AND ");
    reveal_strlit(" < ?2");
    assert(window::HOURLY_DETAIL_SCAN_SQL@ =~= select_span(
        scanned_columns(),
        "domain"@,
        "timestamp"@,
    ));
}

/// The row was read by the places of its columns; its time as a bit pattern
/// stands for the number.
pub open spec fn is_scanned_from(
    row: ScanRow,
    cells: Seq<Cell>,
    bits: spec_fn(int) -> u64,
) -> bool {
    &&& cells.len() == 5
    &&& cells[0] == Cell::Number(row.timestamp as int)
    &&& cells[1] == Cell::Text(row.domain_group@)
    &&& row.is_cached matches Some(v) && cells[2] == Cell::Number(v as int)
    &&& row.is_blocked matches Some(v) && cells[3] == Cell::Number(v as int)
    &&& cells[4] matches Cell::Number(t) && row.query_time == Some(bits(t))
}

/// A logged query is scanned with its own time, group, flags and duration.
pub proof fn law_logged_query_is_scanned(d: DomainData, row: ScanRow, bits: spec_fn(int) -> u64)
    requires
        is_scanned_from(
            row,
            relational::cells(scanned_columns(), domain_filter::log_column(d)),
            bits,
        ),
    ensures
        window::HOURLY_DETAIL_SCAN_SQL@ == select_span(
            scanned_columns(),
            "domain"@,
            "timestamp"@,
        ),
        row.timestamp == d.timestamp,
        row.domain_group@ == d.domain_group@,
        row.is_cached is Some && (row.is_cached->0 != 0 <==> d.is_cached),
        row.is_blocked is Some && (row.is_blocked->0 != 0 <==> d.is_blocked),
        row.query_time == Some(bits(d.query_time as int)),
{
    lemma_scan_text();
    domain_filter::lemma_log_columns(d);
    let cells = relational::cells(scanned_columns(), domain_filter::log_column(d));
    assert(cells[0] == domain_filter::log_column(d)("timestamp"@));
    assert(cells[1] == domain_filter::log_column(d)("domain_group"@));
    assert(cells[2] == domain_filter::log_column(d)("is_cached"@));
    assert(cells[3] == domain_filter::log_column(d)("is_blocked"@));
    assert(cells[4] == domain_filter::log_column(d)("query_time"@));
}

/// A scan reads the rows of the log from its first instant up to its last but
/// one; the largest signed number stands for an end above it.
pub proof fn law_scan_reads_its_span(start: u64, end: u64, t: i64)
    requires
        start <= i64::MAX,
    ensures
        ({
            let q = window::scan_command(start, end);
            &&& q.sql == select_span(scanned_columns(), "domain"@, "timestamp"@)
            &&& exists|from: int, up_to: int| #[trigger]
                reads_times(q, from, up_to) && (from <= t < up_to <==> start <= t && t < end && t
                    < i64::MAX)
        }),
{
    lemma_scan_text();
    let q = window::scan_command(start, end);
    let up_to = if end <= i64::MAX {
        end as int
    } else {
        i64::MAX as int
    };
    assert(reads_times(q, start as int, up_to));
}

} // verus!
