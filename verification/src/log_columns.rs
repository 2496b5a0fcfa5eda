//! Which column each value of the query log is written to and read from.

use vstd::prelude::*;

use crate::domain_filter;
use crate::domain_list;
use crate::error::DbError;
use crate::model::{DomainData, DomainListGetParam};
use crate::query_log;
use crate::relational;
use crate::relational::Cell;
use crate::sql;
use crate::text;

verus! {

/// The columns of the log that a row is written to, in their order.
pub open spec fn written_columns() -> Seq<Seq<char>> {
    seq![
        "timestamp"@,
        "domain"@,
        "domain_type"@,
        "client"@,
        "domain_group"@,
        "reply_code"@,
        "query_time"@,
        "ping_time"@,
        "is_blocked"@,
        "is_cached"@,
    ]
}

proof fn lemma_written_columns()
    ensures
        relational::listed(written_columns(), 10) == "timestamp, domain, domain_type, client, domain_group, reply_code, query_time, ping_time, is_blocked, is_cached"@,
{
    let c = written_columns();
    assert(relational::listed(c, 3) == "timestamp, domain, domain_type"@) by {
        reveal_with_fuel(relational::listed, 4);
        reveal_strlit("timestamp, domain, domain_type");
        reveal_strlit(", ");
        reveal_strlit("timestamp");
        reveal_strlit("domain");
        reveal_strlit("domain_type");
        assert(relational::listed(c, 3) =~= "timestamp, domain, domain_type"@);
    }
    assert(relational::listed(c, 6) == "timestamp, domain, domain_type, client, domain_group, reply_code"@) by {
        reveal_with_fuel(relational::listed, 4);
        reveal_strlit("timestamp, domain, domain_type");
        reveal_strlit("timestamp, domain, domain_type, client, domain_group, reply_code");
        reveal_strlit(", ");
        reveal_strlit("client");
        reveal_strlit("domain_group");
        reveal_strlit("reply_code");
        assert(relational::listed(c, 6) =~= "timestamp, domain, domain_type, client, domain_group, reply_code"@);
    }
    assert(relational::listed(c, 9) == "timestamp, domain, domain_type, client, domain_group, reply_code, query_time, ping_time, is_blocked"@) by {
        reveal_with_fuel(relational::listed, 4);
        reveal_strlit("timestamp, domain, domain_type, client, domain_group, reply_code");
        reveal_strlit("timestamp, domain, domain_type, client, domain_group, reply_code, query_time, ping_time, is_blocked");
        reveal_strlit(", ");
        reveal_strlit("query_time");
        reveal_strlit("ping_time");
        reveal_strlit("is_blocked");
        assert(relational::listed(c, 9) =~= "timestamp, domain, domain_type, client, domain_group, reply_code, query_time, ping_time, is_blocked"@);
    }
    assert(relational::listed(c, 10) == "timestamp, domain, domain_type, client, domain_group, reply_code, query_time, ping_time, is_blocked, is_cached"@) by {
        reveal_with_fuel(relational::listed, 2);
        reveal_strlit("timestamp, domain, domain_type, client, domain_group, reply_code, query_time, ping_time, is_blocked");
        reveal_strlit("timestamp, domain, domain_type, client, domain_group, reply_code, query_time, ping_time, is_blocked, is_cached");
        reveal_strlit(", ");
        reveal_strlit("is_cached");
        assert(relational::listed(c, 10) =~= "timestamp, domain, domain_type, client, domain_group, reply_code, query_time, ping_time, is_blocked, is_cached"@);
    }
}

proof fn lemma_ten_places()
    ensures
        relational::numbered(10) == "?1, ?2, ?3, ?4, ?5, ?6, ?7, ?8, ?9, ?10"@,
{
    assert(relational::numbered(3) == "?1, ?2, ?3"@) by {
        reveal_with_fuel(relational::numbered, 4);
        reveal_with_fuel(text::decimal, 2);
        reveal_strlit("?1, ?2, ?3");
        reveal_strlit(", ?");
        reveal_strlit("?1");
        assert(relational::numbered(3) =~= "?1, ?2, ?3"@);
    }
    assert(relational::numbered(6) == "?1, ?2, ?3, ?4, ?5, ?6"@) by {
        reveal_with_fuel(relational::numbered, 4);
        reveal_with_fuel(text::decimal, 2);
        reveal_strlit("?1, ?2, ?3");
        reveal_strlit("?1, ?2, ?3, ?4, ?5, ?6");
        reveal_strlit(", ?");
        reveal_strlit("?1");
        assert(relational::numbered(6) =~= "?1, ?2, ?3, ?4, ?5, ?6"@);
    }
    assert(relational::numbered(9) == "?1, ?2, ?3, ?4, ?5, ?6, ?7, ?8, ?9"@) by {
        reveal_with_fuel(relational::numbered, 4);
        reveal_with_fuel(text::decimal, 2);
        reveal_strlit("?1, ?2, ?3, ?4, ?5, ?6");
        reveal_strlit("?1, ?2, ?3, ?4, ?5, ?6, ?7, ?8, ?9");
        reveal_strlit(", ?");
        reveal_strlit("?1");
        assert(relational::numbered(9) =~= "?1, ?2, ?3, ?4, ?5, ?6, ?7, ?8, ?9"@);
    }
    assert(relational::numbered(10) == "?1, ?2, ?3, ?4, ?5, ?6, ?7, ?8, ?9, ?10"@) by {
        reveal_with_fuel(relational::numbered, 2);
        reveal_with_fuel(text::decimal, 2);
        reveal_strlit("?1, ?2, ?3, ?4, ?5, ?6, ?7, ?8, ?9");
        reveal_strlit("?1, ?2, ?3, ?4, ?5, ?6, ?7, ?8, ?9, ?10");
        reveal_strlit(", ?");
        reveal_strlit("?1");
        assert(relational::numbered(10) =~= "?1, ?2, ?3, ?4, ?5, ?6, ?7, ?8, ?9, ?10"@);
    }
}

proof fn lemma_insert_text()
    ensures
        query_log::INSERT_DOMAIN_SQL@ == relational::insert("domain"@, written_columns()),
{
    lemma_written_columns();
    lemma_ten_places();
    reveal_strlit("INSERT INTO domain (timestamp, domain, domain_type, client, domain_group, reply_code, query_time, ping_time, is_blocked, is_cached) VALUES (?1, ?2, ?3, ?4, ?5, ?6, ?7, ?8, ?9, ?10)");
    reveal_strlit("timestamp, domain, domain_type, client, domain_group, reply_code, query_time, ping_time, is_blocked, is_cached");
    reveal_strlit("?1, ?2, ?3, ?4, ?5, ?6, ?7, ?8, ?9, ?10");
    reveal_strlit("INSERT INTO ");
    reveal_strlit("domain");
    reveal_strlit(" (");
    reveal_strlit(") VALUES (");
    reveal_strlit(")");
    assert(query_log::INSERT_DOMAIN_SQL@ =~= relational::insert("domain"@, written_columns()));
}

/// The columns of the log that a page is read from, in their order.
pub open spec fn read_columns() -> Seq<Seq<char>> {
    seq![
        "id"@,
        "timestamp"@,
        "domain"@,
        "domain_type"@,
        "client"@,
        "domain_group"@,
        "reply_code"@,
        "query_time"@,
        "ping_time"@,
        "is_blocked"@,
        "is_cached"@,
    ]
}

proof fn lemma_read_columns()
    ensures
        relational::listed(read_columns(), 11) == "id, timestamp, domain, domain_type, client, domain_group, reply_code, query_time, ping_time, is_blocked, is_cached"@,
{
    let c = read_columns();
    assert(relational::listed(c, 3) == "id, timestamp, domain"@) by {
        reveal_with_fuel(relational::listed, 4);
        reveal_strlit("id, timestamp, domain");
        reveal_strlit(", ");
        reveal_strlit("id");
        reveal_strlit("timestamp");
        reveal_strlit("domain");
        assert(relational::listed(c, 3) =~= "id, timestamp, domain"@);
    }
    assert(relational::listed(c, 6) == "id, timestamp, domain, domain_type, client, domain_group"@) by {
        reveal_with_fuel(relational::listed, 4);
        reveal_strlit("id, timestamp, domain");
        reveal_strlit("id, timestamp, domain, domain_type, client, domain_group");
        reveal_strlit(", ");
        reveal_strlit("domain_type");
        reveal_strlit("client");
        reveal_strlit("domain_group");
        assert(relational::listed(c, 6) =~= "id, timestamp, domain, domain_type, client, domain_group"@);
    }
    assert(relational::listed(c, 9) == "id, timestamp, domain, domain_type, client, domain_group, reply_code, query_time, ping_time"@) by {
        reveal_with_fuel(relational::listed, 4);
        reveal_strlit("id, timestamp, domain, domain_type, client, domain_group");
        reveal_strlit("id, timestamp, domain, domain_type, client, domain_group, reply_code, query_time, ping_time");
        reveal_strlit(", ");
        reveal_strlit("reply_code");
        reveal_strlit("query_time");
        reveal_strlit("ping_time");
        assert(relational::listed(c, 9) =~= "id, timestamp, domain, domain_type, client, domain_group, reply_code, query_time, ping_time"@);
    }
    assert(relational::listed(c, 11) == "id, timestamp, domain, domain_type, client, domain_group, reply_code, query_time, ping_time, is_blocked, is_cached"@) by {
        reveal_with_fuel(relational::listed, 3);
        reveal_strlit("id, timestamp, domain, domain_type, client, domain_group, reply_code, query_time, ping_time");
        reveal_strlit("id, timestamp, domain, domain_type, client, domain_group, reply_code, query_time, ping_time, is_blocked, is_cached");
        reveal_strlit(", ");
        reveal_strlit("is_blocked");
        reveal_strlit("is_cached");
        assert(relational::listed(c, 11) =~= "id, timestamp, domain, domain_type, client, domain_group, reply_code, query_time, ping_time, is_blocked, is_cached"@);
    }
}

proof fn lemma_select_text()
    ensures
        "SELECT id, timestamp, domain, domain_type, client, domain_group, reply_code, query_time, ping_time, is_blocked, is_cached FROM domain"@
            == relational::select(read_columns(), "domain"@),
{
    lemma_read_columns();
    reveal_strlit("SELECT id, timestamp, domain, domain_type, client, domain_group, reply_code, query_time, ping_time, is_blocked, is_cached FROM domain");
    reveal_strlit("id, timestamp, domain, domain_type, client, domain_group, reply_code, query_time, ping_time, is_blocked, is_cached");
    reveal_strlit("SELECT ");
    reveal_strlit(" FROM ");
    reveal_strlit("domain");
    assert("SELECT id, timestamp, domain, domain_type, client, domain_group, reply_code, query_time, ping_time, is_blocked, is_cached FROM domain"@
        =~= relational::select(read_columns(), "domain"@));
}

/// What a row that was read by the places of its columns is taken for.
pub open spec fn reads_as(cells: Seq<Cell>, d: DomainData) -> bool {
    cells == seq![
        Cell::Number(d.id as int),
        Cell::Number(d.timestamp as int),
        Cell::Text(d.domain@),
        Cell::Number(d.domain_type as int),
        Cell::Text(d.client@),
        Cell::Text(d.domain_group@),
        Cell::Number(d.reply_code as int),
        Cell::Number(d.query_time as int),
        Cell::Real(d.ping_time),
        domain_filter::flag_cell(d.is_blocked),
        domain_filter::flag_cell(d.is_cached),
    ]
}

/// Each value that is bound to the insert of a row stands at the place that the
/// statement gives to its column.
pub proof fn law_logged_values_stand_at_their_columns(d: DomainData)
    ensures
        query_log::INSERT_DOMAIN_SQL@ == relational::insert("domain"@, written_columns()),
        relational::placed(
            written_columns(),
            query_log::domain_values(d),
            domain_filter::log_column(d),
        ),
{
    lemma_insert_text();
    domain_filter::lemma_log_columns(d);
    relational::law_decimal_stands_for_its_number(d.timestamp as nat);
    relational::law_decimal_stands_for_its_number(d.domain_type as nat);
    let columns = written_columns();
    let values = query_log::domain_values(d);
    let row = domain_filter::log_column(d);
    assert forall|i: int| 0 <= i < columns.len() implies relational::is_cell(
        #[trigger] values[i],
        row(columns[i]),
    ) by {
        if i == 0 {
        } else if i == 1 {
        } else if i == 2 {
        } else if i == 3 {
        } else if i == 4 {
        } else if i == 5 {
        } else if i == 6 {
        } else if i == 7 {
        } else if i == 8 {
        } else {
            assert(i == 9);
        }
    }
}

/// The columns of numbers hold numbers, and those of texts hold texts.
pub open spec fn is_typed(row: spec_fn(Seq<char>) -> Cell) -> bool {
    &&& row("timestamp"@) is Number
    &&& row("domain_type"@) is Number
    &&& row("domain"@) is Text
    &&& row("client"@) is Text
    &&& row("domain_group"@) is Text
}

/// A row that is read back from the log is the row that was logged: where the
/// columns hold the values that were bound to them, a page reads
/// every field from the column that it was written to.
pub proof fn law_logged_row_is_read_back(d: DomainData, row: spec_fn(Seq<char>) -> Cell)
    requires
        row("id"@) == Cell::Number(d.id as int),
        is_typed(row),
        relational::placed(written_columns(), query_log::domain_values(d), row),
    ensures
        reads_as(relational::cells(read_columns(), row), d),
{
    relational::law_decimal_stands_for_its_number(d.timestamp as nat);
    relational::law_decimal_stands_for_its_number(d.domain_type as nat);
    let v = query_log::domain_values(d);
    let w = written_columns();
    assert(relational::is_cell(v[0], row(w[0])));
    assert(relational::is_cell(v[1], row(w[1])));
    assert(relational::is_cell(v[2], row(w[2])));
    assert(relational::is_cell(v[3], row(w[3])));
    assert(relational::is_cell(v[4], row(w[4])));
    assert(relational::is_cell(v[5], row(w[5])));
    assert(relational::is_cell(v[6], row(w[6])));
    assert(relational::is_cell(v[7], row(w[7])));
    assert(relational::is_cell(v[8], row(w[8])));
    assert(relational::is_cell(v[9], row(w[9])));
    assert(relational::cells(read_columns(), row) =~= seq![
        Cell::Number(d.id as int),
        Cell::Number(d.timestamp as int),
        Cell::Text(d.domain@),
        Cell::Number(d.domain_type as int),
        Cell::Text(d.client@),
        Cell::Text(d.domain_group@),
        Cell::Number(d.reply_code as int),
        Cell::Number(d.query_time as int),
        Cell::Real(d.ping_time),
        domain_filter::flag_cell(d.is_blocked),
        domain_filter::flag_cell(d.is_cached),
    ]);
}

/// The query for a page reads the columns in their order, demands what the
/// clauses demand, and takes as many rows as the page has, those of the earlier
/// pages left out unless a cursor stands on a row.
pub proof fn law_page_of_the_log(p: DomainListGetParam, c: sql::Clauses)
    requires
        p.page_num >= 1,
    ensures
        ({
            let q = domain_list::domain_page(Some(&p), c);
            let n = c.args.len() as int;
            let at_row = p.cursor matches Some(cursor) && cursor.id is Some;
            &&& q.sql == relational::select(read_columns(), "domain"@) + c.where_text + c.order_text
                + if at_row {
                " LIMIT ?"@
            } else {
                " LIMIT ? OFFSET ?"@
            }
            &&& q.params.len() == if at_row {
                n + 1
            } else {
                n + 2
            }
            &&& forall|i: int| 0 <= i < n ==> #[trigger] q.params[i] == sql::SqlValue::Text(c.args[i])
            &&& relational::is_number(q.params[n], p.page_size as int)
            &&& !at_row ==> relational::is_number(
                q.params[n + 1],
                (p.page_num - 1) * p.page_size,
            )
        }),
{
    lemma_select_text();
    relational::law_decimal_stands_for_its_number(p.page_size as nat);
    let skipped = (p.page_num - 1) * p.page_size;
    assert(skipped >= 0) by (nonlinear_arith)
        requires
            skipped == (p.page_num - 1) * p.page_size,
            p.page_num >= 1,
    ;
    relational::law_decimal_stands_for_its_number(skipped as nat);
}

/// Without a request the whole log is read.
pub proof fn law_whole_log_is_read()
    ensures
        domain_list::domain_page(None, sql::no_clauses()) == sql::bare(
            relational::select(read_columns(), "domain"@),
        ),
        domain_list::domain_clauses(None, None) == Ok::<sql::Clauses, DbError>(sql::no_clauses()),
        sql::no_clauses().where_text.len() == 0,
        sql::no_clauses().order_text.len() == 0,
        sql::no_clauses().args.len() == 0,
{
    lemma_select_text();
    let q = domain_list::domain_page(None, sql::no_clauses());
    assert(q.sql =~= relational::select(read_columns(), "domain"@));
    assert(q.params =~= Seq::empty());
}

/// A page can be counted off where there are 64-bit many rows before it, and
/// need not be counted off where a cursor stands on a row.
pub proof fn law_pages_that_can_be_counted_off(p: DomainListGetParam)
    ensures
        domain_list::domain_page_in_range(Some(&p)) <==> {
            ||| p.cursor matches Some(cursor) && cursor.id is Some
            ||| p.page_num >= 1 && (p.page_num - 1) * p.page_size <= 0xffff_ffff_ffff_ffff
        },
{
}

/// The rows of a request are counted under the same conditions as its pages.
pub proof fn law_rows_of_the_log_are_counted(c: sql::Clauses)
    ensures
        ({
            let q = domain_list::domain_count(Ok(c));
            &&& q.sql == relational::select(seq!["COUNT(*)"@], "domain"@) + c.where_text
                + c.order_text
            &&& q.params == sql::text_values(c.args)
        }),
{
    reveal_strlit("SELECT COUNT(*) FROM domain");
    reveal_strlit("SELECT ");
    reveal_strlit("COUNT(*)");
    reveal_strlit(" FROM ");
    reveal_strlit("domain");
    assert("SELECT COUNT(*) FROM domain"@ =~= relational::select(seq!["COUNT(*)"@], "domain"@));
}

} // verus!
