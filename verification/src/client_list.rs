//! Listing the clients: filters, order and paging.

use vstd::prelude::*;
use vstd::string::*;

use crate::db::DB;
use crate::error::DbError;
use crate::model::{ClientData, ClientListGetParam, QueryClientListResult};
use crate::paging;
use crate::rows;
use crate::sql;
use crate::sql::{Condition, Statement};
use crate::text;

verus! {

/// A condition on a text column, where its value is given.
pub open spec fn text_cond(column: Seq<char>, v: Option<String>) -> Seq<sql::Cond> {
    match v {
        Some(v) => sql::one_arg(column, v@),
        None => Seq::empty(),
    }
}

/// A condition on a number column, where its value is given.
pub open spec fn number_cond(column: Seq<char>, v: Option<u64>) -> Seq<sql::Cond> {
    match v {
        Some(v) => sql::one_arg(column, text::decimal(v as nat)),
        None => Seq::empty(),
    }
}

/// Every condition of a request, in the order in which they are written.
pub open spec fn client_conds(p: ClientListGetParam) -> Seq<sql::Cond> {
    number_cond("id = ?"@, p.id) + text_cond("client_ip = ?"@, p.client_ip) + text_cond(
        "mac = ?"@,
        p.mac,
    ) + text_cond("hostname = ?"@, p.hostname) + number_cond(
        "last_query_timestamp <= ?"@,
        p.timestamp_before,
    ) + number_cond("last_query_timestamp >= ?"@, p.timestamp_after)
}

/// The request bounds the time of the last query.
pub open spec fn by_time(p: ClientListGetParam) -> bool {
    p.timestamp_before is Some || p.timestamp_after is Some
}

/// The `ORDER BY` clause of a request: by time first where the time is bounded,
/// newest first unless the order is ascending.
pub open spec fn client_order(p: ClientListGetParam) -> Seq<char> {
    if by_time(p) {
        if sql::is_asc(p.order) {
            " ORDER BY last_query_timestamp ASC, id ASC"@
        } else {
            " ORDER BY last_query_timestamp DESC, id DESC"@
        }
    } else {
        if sql::is_asc(p.order) {
            " ORDER BY id ASC, last_query_timestamp ASC"@
        } else {
            " ORDER BY id DESC, last_query_timestamp DESC"@
        }
    }
}

/// The clauses of a request; no request, no clauses.
pub open spec fn client_clauses(param: Option<&ClientListGetParam>) -> Result<
    sql::Clauses,
    DbError,
> {
    match param {
        None => Ok(sql::no_clauses()),
        Some(p) => if sql::order_known(p.order) {
            Ok(
                sql::Clauses {
                    where_text: sql::where_clause(client_conds(*p)),
                    order_text: client_order(*p),
                    args: sql::bound_args(client_conds(*p)),
                },
            )
        } else {
            Err(DbError::OrderParam)
        },
    }
}

fn push_text(list: &mut Vec<Condition>, column: &str, v: &Option<String>)
    ensures
        sql::conds(final(list)@) == sql::conds(old(list)@) + text_cond(column@, *v),
{
    if let Some(v) = v {
        sql::push_one(list, column, v.clone());
    }
    assert(sql::conds(list@) =~= sql::conds(old(list)@) + text_cond(column@, *v));
}

fn push_number(list: &mut Vec<Condition>, column: &str, v: Option<u64>)
    ensures
        sql::conds(final(list)@) == sql::conds(old(list)@) + number_cond(column@, v),
{
    if let Some(v) = v {
        sql::push_one(list, column, text::decimal_text(v));
    }
    assert(sql::conds(list@) =~= sql::conds(old(list)@) + number_cond(column@, v));
}

impl DB {
    /// The `WHERE` clause, the `ORDER BY` clause and the placeholder texts of a
    /// request for clients.
    pub fn get_client_sql_where(param: Option<&ClientListGetParam>) -> (r: Result<
        (String, String, Vec<String>),
        DbError,
    >)
        ensures
            sql::clauses_of(r) == client_clauses(param),
    {
        let p = match param {
            Some(p) => p,
            None => {
                let none: Vec<String> = Vec::new();
                assert(text::texts(none@) =~= Seq::empty());
                return Ok((String::new(), String::new(), none));
            },
        };

        let mut asc = false;
        if let Some(v) = &p.order {
            if text::eq_ignore_ascii_case(v.as_str(), "asc") {
                asc = true;
            } else if !text::eq_ignore_ascii_case(v.as_str(), "desc") {
                return Err(DbError::OrderParam);
            }
        }

        let mut list: Vec<Condition> = Vec::new();
        push_number(&mut list, "id = ?", p.id);
        push_text(&mut list, "client_ip = ?", &p.client_ip);
        push_text(&mut list, "mac = ?", &p.mac);
        push_text(&mut list, "hostname = ?", &p.hostname);
        push_number(&mut list, "last_query_timestamp <= ?", p.timestamp_before);
        push_number(&mut list, "last_query_timestamp >= ?", p.timestamp_after);
        assert(sql::conds(list@) =~= client_conds(*p));

        let time_first = p.timestamp_before.is_some() || p.timestamp_after.is_some();
        let order: &str = if time_first {
            if asc {
                " ORDER BY last_query_timestamp ASC, id ASC"
            } else {
                " ORDER BY last_query_timestamp DESC, id DESC"
            }
        } else {
            if asc {
                " ORDER BY id ASC, last_query_timestamp ASC"
            } else {
                " ORDER BY id DESC, last_query_timestamp DESC"
            }
        };

        let (clause, args) = sql::render_where(list);
        Ok((clause, order.to_owned(), args))
    }
}

/// The rows that a client list is read from.
pub open spec fn client_select() -> Seq<char> {
    "SELECT id, client_ip, mac, hostname, last_query_timestamp FROM client"@
}

/// How many rows come before the requested page.
pub open spec fn client_offset(p: ClientListGetParam) -> nat {
    ((p.page_num - 1) * p.page_size) as nat
}

/// The page is found by the id of its first row: where the time is not bounded,
/// from the second page on.
pub open spec fn anchored(p: ClientListGetParam) -> bool {
    !by_time(p) && p.page_num > 1
}

/// The query for the first row of a page.
pub open spec fn client_anchor(p: ClientListGetParam, c: sql::Clauses) -> sql::Command {
    sql::Command {
        sql: client_select() + c.where_text + c.order_text + " LIMIT 1 OFFSET ?"@,
        params: sql::text_values(c.args.push(text::decimal(client_offset(p)))),
    }
}

/// Builds the query for the first row of a page, where the page is found by that row.
pub fn client_anchor_query(
    param: Option<&ClientListGetParam>,
    clauses: &(String, String, Vec<String>),
) -> (r: Option<Statement>)
    requires
        client_page_in_range(param),
    ensures
        r is Some <==> (param matches Some(p) && anchored(*p)),
        r matches Some(s) ==> s@ == client_anchor(*param->0, sql::clauses(*clauses)),
{
    let p = match param {
        Some(p) => p,
        None => return None,
    };
    if p.timestamp_before.is_some() || p.timestamp_after.is_some() || p.page_num <= 1 {
        return None;
    }
    let mut query = "SELECT id, client_ip, mac, hostname, last_query_timestamp FROM client".to_owned();
    query.append(clauses.0.as_str());
    query.append(clauses.1.as_str());
    query.append(" LIMIT 1 OFFSET ?");
    let mut args = copy_texts(&clauses.2);
    let ghost held = args@;
    args.push(text::decimal_text(sql::page_offset(p.page_num, p.page_size)));
    assert(text::texts(args@) =~= text::texts(held).push(text::decimal(client_offset(*p))));
    Some(Statement { sql: query, params: sql::text_params(args) })
}

fn copy_texts(v: &Vec<String>) -> (r: Vec<String>)
    ensures
        text::texts(r@) == text::texts(v@),
{
    let mut r: Vec<String> = Vec::new();
    let mut i: usize = 0;
    while i < v.len()
        invariant
            i <= v@.len(),
            r@.len() == i,
            forall|j: int| 0 <= j < i ==> (#[trigger] r@[j])@ == v@[j]@,
        decreases v@.len() - i,
    {
        r.push(v[i].clone());
        i += 1;
    }
    assert(text::texts(r@) =~= text::texts(v@));
    r
}

/// The `WHERE` clause of a page that starts at its anchor.
pub open spec fn anchored_where(p: ClientListGetParam, c: sql::Clauses) -> Seq<char> {
    let from = if sql::is_asc(p.order) {
        "id >= ?"@
    } else {
        "id <= ?"@
    };
    if c.where_text.len() == 0 {
        " WHERE "@ + from
    } else {
        c.where_text + " AND "@ + from
    }
}

/// The query for one page of clients; `anchor` is the id of the page's first
/// row, where it was looked up and found.
pub open spec fn client_page(
    param: Option<&ClientListGetParam>,
    c: sql::Clauses,
    anchor: Option<i64>,
) -> sql::Command {
    match param {
        None => sql::Command { sql: client_select(), params: sql::text_values(c.args) },
        Some(p) => if by_time(*p) {
            sql::Command {
                sql: client_select() + c.where_text + c.order_text + " LIMIT ? OFFSET ?"@,
                params: sql::text_values(
                    c.args.push(text::decimal(p.page_size as nat)).push(
                        text::decimal(client_offset(*p)),
                    ),
                ),
            }
        } else if anchored(*p) && anchor is Some {
            sql::Command {
                sql: client_select() + anchored_where(*p, c) + c.order_text + " LIMIT ?"@,
                params: sql::text_values(
                    c.args.push(text::signed_decimal(anchor->0 as int)).push(
                        text::decimal(p.page_size as nat),
                    ),
                ),
            }
        } else {
            sql::Command {
                sql: client_select() + c.where_text + c.order_text + " LIMIT ?"@,
                params: sql::text_values(c.args.push(text::decimal(p.page_size as nat))),
            }
        },
    }
}

/// Builds the query for one page of clients; `anchor` is the id of the page's
/// first row, where it was looked up and found.
pub fn client_list_query(
    param: Option<&ClientListGetParam>,
    clauses: (String, String, Vec<String>),
    anchor: Option<i64>,
) -> (r: Statement)
    requires
        client_page_in_range(param),
    ensures
        r@ == client_page(param, sql::clauses(clauses), anchor),
{
    let ghost c = sql::clauses(clauses);
    let (where_text, order_text, args) = clauses;
    let mut args = args;
    let mut query = "SELECT id, client_ip, mac, hostname, last_query_timestamp FROM client".to_owned();
    let p = match param {
        Some(p) => p,
        None => return Statement { sql: query, params: sql::text_params(args) },
    };
    if p.timestamp_before.is_some() || p.timestamp_after.is_some() {
        query.append(where_text.as_str());
        query.append(order_text.as_str());
        query.append(" LIMIT ? OFFSET ?");
        args.push(text::decimal_text(p.page_size));
        args.push(text::decimal_text(sql::page_offset(p.page_num, p.page_size)));
        assert(text::texts(args@) =~= c.args.push(text::decimal(p.page_size as nat)).push(
            text::decimal(client_offset(*p)),
        ));
        return Statement { sql: query, params: sql::text_params(args) };
    }
    query.append(where_text.as_str());
    if p.page_num > 1 {
        if let Some(id) = anchor {
            let asc = match &p.order {
                Some(o) => text::eq_ignore_ascii_case(o.as_str(), "asc"),
                None => false,
            };
            if where_text.as_str().is_empty() {
                query.append(" WHERE ");
            } else {
                query.append(" AND ");
            }
            if asc {
                query.append("id >= ?");
            } else {
                query.append("id <= ?");
            }
            args.push(text::signed_decimal_text(id));
            assert(query@ =~= client_select() + anchored_where(*p, c));
        }
    }
    let ghost head = query@;
    let ghost held = args@;
    query.append(order_text.as_str());
    query.append(" LIMIT ?");
    args.push(text::decimal_text(p.page_size));
    assert(text::texts(args@) =~= text::texts(held).push(text::decimal(p.page_size as nat)));
    assert(anchored(*p) && anchor is Some ==> text::texts(held) =~= c.args.push(
        text::signed_decimal(anchor->0 as int),
    ));
    Statement { sql: query, params: sql::text_params(args) }
}

/// The query that counts the clients of a request; a refused request counts all of them.
pub open spec fn client_count(c: Result<sql::Clauses, DbError>) -> sql::Command {
    match c {
        Ok(c) => sql::Command {
            sql: "SELECT COUNT(*) FROM client"@ + c.where_text + c.order_text,
            params: sql::text_values(c.args),
        },
        Err(_) => sql::bare("SELECT COUNT(*) FROM client"@),
    }
}

/// Builds the query that counts the clients of a request from the request's clauses.
pub fn client_count_query(clauses: Result<(String, String, Vec<String>), DbError>) -> (r: Statement)
    ensures
        r@ == client_count(sql::clauses_of(clauses)),
{
    match clauses {
        Ok((where_text, order_text, args)) => {
            let mut query = "SELECT COUNT(*) FROM client".to_owned();
            query.append(where_text.as_str());
            query.append(order_text.as_str());
            Statement { sql: query, params: sql::text_params(args) }
        },
        Err(_) => sql::bare_statement("SELECT COUNT(*) FROM client"),
    }
}

/// The page of a request can be counted off.
pub open spec fn client_page_in_range(param: Option<&ClientListGetParam>) -> bool {
    param matches Some(p) ==> sql::page_in_range(p.page_num, p.page_size)
}

/// Tells whether the page of a request can be counted off.
pub fn client_page_fits(param: Option<&ClientListGetParam>) -> (r: bool)
    ensures
        r == client_page_in_range(param),
{
    match param {
        Some(p) => sql::page_fits(p.page_num, p.page_size),
        None => true,
    }
}

/// The next query for a page of clients.
#[derive(Debug)]
pub enum ClientListStep {
    /// Finds the first row of the page; its id is the anchor.
    Anchor(Statement),
    /// Reads the page.
    Page(Statement),
}

impl DB {
    /// The first query for one page of clients; none where the page cannot be
    /// counted off.
    pub fn get_client_list(&self, param: Option<&ClientListGetParam>) -> (r: Result<
        Option<ClientListStep>,
        DbError,
    >)
        ensures
            match r {
                Ok(Some(ClientListStep::Anchor(s))) => self.is_open && client_page_in_range(param)
                    && (param matches Some(p) && anchored(*p) && (client_clauses(param) matches Ok(c)
                    && s@ == client_anchor(*p, c))),
                Ok(Some(ClientListStep::Page(s))) => self.is_open && client_page_in_range(param)
                    && !(param matches Some(p) && anchored(*p)) && (client_clauses(
                    param,
                ) matches Ok(c) && s@ == client_page(param, c, None)),
                Ok(None) => self.is_open && !client_page_in_range(param) && client_clauses(
                    param,
                ) is Ok,
                Err(e) => if self.is_open {
                    client_clauses(param) == Err::<sql::Clauses, DbError>(e)
                } else {
                    e == DbError::NotOpen
                },
            },
    {
        if !self.is_open {
            return Err(DbError::NotOpen);
        }
        match DB::get_client_sql_where(param) {
            Ok(clauses) => if client_page_fits(param) {
                match client_anchor_query(param, &clauses) {
                    Some(s) => Ok(Some(ClientListStep::Anchor(s))),
                    None => Ok(
                        Some(ClientListStep::Page(client_list_query(param, clauses, None))),
                    ),
                }
            } else {
                Ok(None)
            },
            Err(e) => Err(e),
        }
    }

    /// The query for one page of clients after its first row was looked for;
    /// none where the page cannot be counted off.
    pub fn get_client_list_from(
        &self,
        param: Option<&ClientListGetParam>,
        anchor: Option<i64>,
    ) -> (r: Result<Option<Statement>, DbError>)
        ensures
            match r {
                Ok(Some(s)) => self.is_open && client_page_in_range(param) && (client_clauses(
                    param,
                ) matches Ok(c) && s@ == client_page(param, c, anchor)),
                Ok(None) => self.is_open && !client_page_in_range(param) && client_clauses(
                    param,
                ) is Ok,
                Err(e) => if self.is_open {
                    client_clauses(param) == Err::<sql::Clauses, DbError>(e)
                } else {
                    e == DbError::NotOpen
                },
            },
    {
        if !self.is_open {
            return Err(DbError::NotOpen);
        }
        match DB::get_client_sql_where(param) {
            Ok(clauses) => if client_page_fits(param) {
                Ok(Some(client_list_query(param, clauses, anchor)))
            } else {
                Ok(None)
            },
            Err(e) => Err(e),
        }
    }

    /// The query that counts the clients of a request; none where no database
    /// is attached, and the count is 0.
    pub fn get_client_list_count(&self, param: Option<&ClientListGetParam>) -> (r: Option<Statement>)
        ensures
            match r {
                Some(s) => self.is_open && s@ == client_count(client_clauses(param)),
                None => !self.is_open,
            },
    {
        if !self.is_open {
            return None;
        }
        Some(client_count_query(DB::get_client_sql_where(param)))
    }
}

/// Puts a page together from its rows and from the count, which stands only
/// where there was a request.
pub fn client_list_result(
    param: Option<&ClientListGetParam>,
    found: Vec<Option<ClientData>>,
    counted: u64,
) -> (r: QueryClientListResult)
    ensures
        r.client_list@ == rows::readable(found@),
        r.total_count == if param is Some {
            counted
        } else {
            0
        },
        !r.step_by_cursor,
{
    QueryClientListResult {
        client_list: rows::keep_readable(found),
        total_count: if param.is_some() {
            counted
        } else {
            0
        },
        step_by_cursor: false,
    }
}

proof fn lemma_client_literals_bound()
    ensures
        sql::placeholders("id = ?"@) == 1,
        sql::placeholders("client_ip = ?"@) == 1,
        sql::placeholders("mac = ?"@) == 1,
        sql::placeholders("hostname = ?"@) == 1,
        sql::placeholders("last_query_timestamp <= ?"@) == 1,
        sql::placeholders("last_query_timestamp >= ?"@) == 1,
        sql::placeholders(" ORDER BY last_query_timestamp ASC, id ASC"@) == 0,
        sql::placeholders(" ORDER BY last_query_timestamp DESC, id DESC"@) == 0,
        sql::placeholders(" ORDER BY id ASC, last_query_timestamp ASC"@) == 0,
        sql::placeholders(" ORDER BY id DESC, last_query_timestamp DESC"@) == 0,
{
    reveal_strlit("id = ?");
    reveal_strlit("client_ip = ?");
    reveal_strlit("mac = ?");
    reveal_strlit("hostname = ?");
    reveal_strlit("last_query_timestamp <= ?");
    reveal_strlit("last_query_timestamp >= ?");
    reveal_strlit(" ORDER BY last_query_timestamp ASC, id ASC");
    reveal_strlit(" ORDER BY last_query_timestamp DESC, id DESC");
    reveal_strlit(" ORDER BY id ASC, last_query_timestamp ASC");
    reveal_strlit(" ORDER BY id DESC, last_query_timestamp DESC");
    sql::lemma_placeholders_last("id = ?"@);
    sql::lemma_placeholders_last("client_ip = ?"@);
    sql::lemma_placeholders_last("mac = ?"@);
    sql::lemma_placeholders_last("hostname = ?"@);
    sql::lemma_placeholders_last("last_query_timestamp <= ?"@);
    sql::lemma_placeholders_last("last_query_timestamp >= ?"@);
    sql::lemma_placeholders_none(" ORDER BY last_query_timestamp ASC, id ASC"@);
    sql::lemma_placeholders_none(" ORDER BY last_query_timestamp DESC, id DESC"@);
    sql::lemma_placeholders_none(" ORDER BY id ASC, last_query_timestamp ASC"@);
    sql::lemma_placeholders_none(" ORDER BY id DESC, last_query_timestamp DESC"@);
}

proof fn lemma_client_page_literals_bound()
    ensures
        sql::placeholders(client_select()) == 0,
        sql::placeholders("SELECT COUNT(*) FROM client"@) == 0,
        sql::placeholders(" WHERE "@) == 0,
        sql::placeholders(" AND "@) == 0,
        sql::placeholders("id >= ?"@) == 1,
        sql::placeholders("id <= ?"@) == 1,
        sql::placeholders(" LIMIT ?"@) == 1,
        sql::placeholders(" LIMIT 1 OFFSET ?"@) == 1,
        sql::placeholders(" LIMIT ? OFFSET ?"@) == 2,
{
    reveal_strlit("SELECT id, client_ip, mac, hostname, last_query_timestamp FROM client");
    reveal_strlit("SELECT COUNT(*) FROM client");
    reveal_strlit(" WHERE ");
    reveal_strlit(" AND ");
    reveal_strlit("id >= ?");
    reveal_strlit("id <= ?");
    reveal_strlit(" LIMIT ?");
    reveal_strlit(" LIMIT 1 OFFSET ?");
    reveal_strlit(" LIMIT ? OFFSET ?");
    sql::lemma_placeholders_none(client_select());
    sql::lemma_placeholders_none("SELECT COUNT(*) FROM client"@);
    sql::lemma_placeholders_none(" WHERE "@);
    sql::lemma_placeholders_none(" AND "@);
    sql::lemma_placeholders_last("id >= ?"@);
    sql::lemma_placeholders_last("id <= ?"@);
    sql::lemma_placeholders_last(" LIMIT ?"@);
    sql::lemma_placeholders_last(" LIMIT 1 OFFSET ?"@);
    let both = " LIMIT ? OFFSET ?"@;
    sql::lemma_placeholders_add(both.take(8), both.skip(8));
    assert(both =~= both.take(8) + both.skip(8));
    sql::lemma_placeholders_last(both.take(8));
    sql::lemma_placeholders_last(both.skip(8));
}

/// Every placeholder of a request's `WHERE` clause has a text bound to it, and
/// every bound text a placeholder.
pub proof fn law_client_filter_is_bound(p: ClientListGetParam)
    ensures
        sql::placeholders(sql::where_clause(client_conds(p))) == sql::bound_args(
            client_conds(p),
        ).len(),
        sql::placeholders(client_order(p)) == 0,
{
    lemma_client_literals_bound();
    let c0 = number_cond("id = ?"@, p.id);
    let c1 = text_cond("client_ip = ?"@, p.client_ip);
    let c2 = text_cond("mac = ?"@, p.mac);
    let c3 = text_cond("hostname = ?"@, p.hostname);
    let c4 = number_cond("last_query_timestamp <= ?"@, p.timestamp_before);
    let c5 = number_cond("last_query_timestamp >= ?"@, p.timestamp_after);
    sql::lemma_all_bound_add(c0, c1);
    sql::lemma_all_bound_add(c0 + c1, c2);
    sql::lemma_all_bound_add(c0 + c1 + c2, c3);
    sql::lemma_all_bound_add(c0 + c1 + c2 + c3, c4);
    sql::lemma_all_bound_add(c0 + c1 + c2 + c3 + c4, c5);
    sql::law_where_clause_is_bound(client_conds(p));
}

/// The queries for a page of clients, for its first row and for its count have
/// as many placeholders as values.
pub proof fn law_client_queries_are_bound(p: ClientListGetParam, anchor: Option<i64>)
    requires
        client_clauses(Some(&p)) is Ok,
    ensures
        ({
            let c = client_clauses(Some(&p))->Ok_0;
            let page = client_page(Some(&p), c, anchor);
            let first = client_anchor(p, c);
            let count = client_count(Ok(c));
            &&& sql::placeholders(page.sql) == page.params.len()
            &&& sql::placeholders(first.sql) == first.params.len()
            &&& sql::placeholders(count.sql) == count.params.len()
        }),
{
    let c = client_clauses(Some(&p))->Ok_0;
    lemma_client_page_literals_bound();
    law_client_filter_is_bound(p);
    let base = client_select() + c.where_text;
    let counting = "SELECT COUNT(*) FROM client"@;
    sql::lemma_placeholders_add(client_select(), c.where_text);
    sql::lemma_placeholders_add(base, c.order_text);
    sql::lemma_placeholders_add(base + c.order_text, " LIMIT ? OFFSET ?"@);
    sql::lemma_placeholders_add(base + c.order_text, " LIMIT 1 OFFSET ?"@);
    sql::lemma_placeholders_add(base + c.order_text, " LIMIT ?"@);
    sql::lemma_placeholders_add(counting, c.where_text);
    sql::lemma_placeholders_add(counting + c.where_text, c.order_text);
    let from = if sql::is_asc(p.order) {
        "id >= ?"@
    } else {
        "id <= ?"@
    };
    sql::lemma_placeholders_add(" WHERE "@, from);
    sql::lemma_placeholders_add(c.where_text, " AND "@);
    sql::lemma_placeholders_add(c.where_text + " AND "@, from);
    if c.where_text.len() == 0 {
        assert(sql::placeholders(c.where_text) == 0);
    }
    let anchored_base = client_select() + anchored_where(p, c);
    sql::lemma_placeholders_add(client_select(), anchored_where(p, c));
    sql::lemma_placeholders_add(anchored_base, c.order_text);
    sql::lemma_placeholders_add(anchored_base + c.order_text, " LIMIT ?"@);
}

/// Two requests that ask for the same kind of page and differ in values only.
pub open spec fn same_client_shape(p: ClientListGetParam, q: ClientListGetParam) -> bool {
    &&& p.id is Some == q.id is Some
    &&& sql::is_asc(p.order) == sql::is_asc(q.order)
    &&& p.client_ip is Some == q.client_ip is Some
    &&& p.mac is Some == q.mac is Some
    &&& p.hostname is Some == q.hostname is Some
    &&& p.timestamp_before is Some == q.timestamp_before is Some
    &&& p.timestamp_after is Some == q.timestamp_after is Some
}

/// No value of a request is written into the statement: requests that differ in
/// values only get the same clauses.
pub proof fn law_client_values_stay_out_of_the_statement(
    p: ClientListGetParam,
    q: ClientListGetParam,
)
    requires
        same_client_shape(p, q),
    ensures
        sql::where_clause(client_conds(p)) == sql::where_clause(client_conds(q)),
        client_order(p) == client_order(q),
{
    assert(sql::cond_texts(client_conds(p)) =~= sql::cond_texts(client_conds(q)));
    sql::lemma_same_texts_same_clause(client_conds(p), client_conds(q));
}

/// The id of a client.
pub open spec fn client_id() -> spec_fn(ClientData) -> int {
    |c: ClientData| c.id as int
}

/// The clients that meet the condition of an anchored page, as
/// [`anchored_where`] writes it.
pub open spec fn passes_anchor(p: ClientListGetParam, anchor: i64) -> spec_fn(ClientData) -> bool {
    paging::from_on(client_id(), !sql::is_asc(p.order), anchor as int)
}

/// A page that is found by the id of its first row is the page that is counted
/// off. `rows` are the clients that meet the conditions of the request, in its
/// order; a page behind the last client has no first row.
pub proof fn law_anchored_page_is_counted_off(
    p: ClientListGetParam,
    rows: Seq<ClientData>,
    anchor: i64,
)
    requires
        anchored(p),
        paging::is_ordered(rows, client_id(), !sql::is_asc(p.order)),
        client_offset(p) < rows.len(),
        anchor == rows[client_offset(p) as int].id,
    ensures
        paging::first(rows.filter(passes_anchor(p, anchor)), p.page_size as nat) == paging::first(
            rows.skip(client_offset(p) as int),
            p.page_size as nat,
        ),
{
    paging::law_page_from_a_row_is_counted_off(
        rows,
        client_id(),
        !sql::is_asc(p.order),
        client_offset(p) as int,
        p.page_size as nat,
    );
}

} // verus!
