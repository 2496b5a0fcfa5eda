//! Listing the query log: filters, order and paging.

use vstd::prelude::*;
use vstd::string::*;

use crate::db::DB;
use crate::error::DbError;
use crate::model::{DomainData, DomainListGetParam, QueryDomainListResult};
use crate::paging;
use crate::rows;
use crate::sql;
use crate::sql::{Condition, Statement};
use crate::text;

verus! {

/// The request steps back from its cursor.
pub open spec fn steps_back(p: DomainListGetParam) -> bool {
    p.cursor matches Some(c) && text::same_ignoring_ascii_case(c.direction@, "prev"@)
}

/// The cursor is absent or steps in one of the two directions that exist.
pub open spec fn cursor_known(p: DomainListGetParam) -> bool {
    p.cursor matches Some(c) ==> {
        ||| text::same_ignoring_ascii_case(c.direction@, "prev"@)
        ||| text::same_ignoring_ascii_case(c.direction@, "next"@)
    }
}

/// The row that the cursor stands on.
pub open spec fn cursor_id(p: DomainListGetParam) -> Option<u64> {
    match p.cursor {
        Some(c) => c.id,
        None => None,
    }
}

/// The domain filter modes that exist.
pub open spec fn mode_known(mode: Seq<char>) -> bool {
    ||| mode == "endswith"@
    ||| mode == "startswith"@
    ||| mode == "contains"@
    ||| mode == "equals"@
    ||| mode == "notempty"@
}

/// Why a request is refused, if it is; the order is looked at first, then the
/// cursor, then the filter mode, which matters only beside a domain.
pub open spec fn domain_filter_error(
    p: DomainListGetParam,
    mode: Option<Seq<char>>,
) -> Option<DbError> {
    if !sql::order_known(p.order) {
        Some(DbError::OrderParam)
    } else if !cursor_known(p) {
        Some(DbError::CursorDirectionParam)
    } else if p.domain is Some && mode is Some && !mode_known(mode->0) {
        Some(DbError::DomainFilterModeParam)
    } else {
        None
    }
}

pub open spec fn id_cond(p: DomainListGetParam) -> Seq<sql::Cond> {
    match p.id {
        Some(v) => sql::one_arg("id = ?"@, text::decimal(v as nat)),
        None => Seq::empty(),
    }
}

pub open spec fn domain_cond(p: DomainListGetParam, mode: Option<Seq<char>>) -> Seq<sql::Cond> {
    match (p.domain, mode) {
        (None, _) => Seq::empty(),
        (Some(v), None) => sql::one_arg("domain = ?"@, v@),
        (Some(v), Some(m)) => if m == "endswith"@ {
            sql::one_arg("domain LIKE ?"@, v@ + "%"@)
        } else if m == "startswith"@ {
            sql::one_arg("domain LIKE ?"@, "%"@ + v@)
        } else if m == "contains"@ {
            sql::one_arg("domain LIKE ?"@, "%"@ + v@ + "%"@)
        } else if m == "equals"@ {
            sql::one_arg("domain = ?"@, v@)
        } else {
            sql::no_arg("domain IS NOT NULL AND domain <> ''"@)
        },
    }
}

pub open spec fn type_cond(p: DomainListGetParam) -> Seq<sql::Cond> {
    match p.domain_type {
        Some(v) => sql::one_arg("domain_type = ?"@, text::decimal(v as nat)),
        None => Seq::empty(),
    }
}

/// `n` question marks.
pub open spec fn marks(n: nat) -> Seq<Seq<char>> {
    Seq::new(n, |i: int| "?"@)
}

/// The client filter: any of the resolved addresses where there are some, else
/// the given client; an empty list of resolved addresses filters nothing.
pub open spec fn client_cond(p: DomainListGetParam) -> Seq<sql::Cond> {
    match (p.client_ips, p.client) {
        (Some(ips), _) => if ips@.len() > 0 {
            seq![
                sql::Cond {
                    text: "client IN ("@ + text::join(marks(ips@.len()), ","@) + ")"@,
                    args: text::texts(ips@),
                },
            ]
        } else {
            Seq::empty()
        },
        (None, Some(v)) => sql::one_arg("client = ?"@, v@),
        (None, None) => Seq::empty(),
    }
}

pub open spec fn group_cond(p: DomainListGetParam) -> Seq<sql::Cond> {
    match p.domain_group {
        Some(v) => sql::one_arg("domain_group = ?"@, v@),
        None => Seq::empty(),
    }
}

pub open spec fn reply_cond(p: DomainListGetParam) -> Seq<sql::Cond> {
    match p.reply_code {
        Some(v) => sql::one_arg("reply_code = ?"@, text::decimal(v as nat)),
        None => Seq::empty(),
    }
}

/// The cursor takes the place of the upper time bound.
pub open spec fn cursor_bounds_above(p: DomainListGetParam) -> bool {
    p.timestamp_before is Some && cursor_id(p) is Some && (!steps_back(p) || sql::is_asc(p.order))
}

/// The cursor takes the place of the lower time bound.
pub open spec fn cursor_bounds_below(p: DomainListGetParam) -> bool {
    p.timestamp_after is Some && cursor_id(p) is Some && (steps_back(p) || sql::is_asc(p.order))
}

pub open spec fn before_cond(p: DomainListGetParam) -> Seq<sql::Cond> {
    match p.timestamp_before {
        Some(v) => if cursor_bounds_above(p) {
            sql::one_arg("id < ?"@, text::decimal(cursor_id(p)->0 as nat))
        } else {
            sql::one_arg("timestamp <= ?"@, text::decimal(v as nat))
        },
        None => Seq::empty(),
    }
}

pub open spec fn after_cond(p: DomainListGetParam) -> Seq<sql::Cond> {
    match p.timestamp_after {
        Some(v) => if cursor_bounds_below(p) {
            sql::one_arg("id > ?"@, text::decimal(cursor_id(p)->0 as nat))
        } else {
            sql::one_arg("timestamp >= ?"@, text::decimal(v as nat))
        },
        None => Seq::empty(),
    }
}

/// The cursor on its own, where it replaced no time bound: the id that it
/// stands on, and whether the rows below that id are asked for or those above
/// it. Rows are read on from the cursor in the order in which they are read.
pub open spec fn cursor_bound(p: DomainListGetParam) -> Option<(bool, u64)> {
    match cursor_id(p) {
        Some(id) => if cursor_bounds_above(p) || cursor_bounds_below(p) {
            None
        } else {
            Some((descending(p), id))
        },
        None => None,
    }
}

pub open spec fn cursor_cond(p: DomainListGetParam) -> Seq<sql::Cond> {
    match cursor_bound(p) {
        Some((below, id)) => sql::one_arg(
            if below {
                "id < ?"@
            } else {
                "id > ?"@
            },
            text::decimal(id as nat),
        ),
        None => Seq::empty(),
    }
}

pub open spec fn blocked_cond(p: DomainListGetParam) -> Seq<sql::Cond> {
    match p.is_blocked {
        Some(v) => sql::no_arg(
            if v {
                "is_blocked = 1"@
            } else {
                "is_blocked = 0"@
            },
        ),
        None => Seq::empty(),
    }
}

pub open spec fn cached_cond(p: DomainListGetParam) -> Seq<sql::Cond> {
    match p.is_cached {
        Some(v) => sql::no_arg(
            if v {
                "is_cached = 1"@
            } else {
                "is_cached = 0"@
            },
        ),
        None => Seq::empty(),
    }
}

/// The conditions of a request by what they filter on, in the order in which
/// they are written.
pub open spec fn domain_parts(p: DomainListGetParam, mode: Option<Seq<char>>) -> Seq<
    Seq<sql::Cond>,
> {
    seq![
        id_cond(p),
        domain_cond(p, mode),
        type_cond(p),
        client_cond(p),
        group_cond(p),
        reply_cond(p),
        before_cond(p),
        after_cond(p),
        cursor_cond(p),
        blocked_cond(p),
        cached_cond(p),
    ]
}

/// Every condition of a request.
pub open spec fn domain_conds(p: DomainListGetParam, mode: Option<Seq<char>>) -> Seq<sql::Cond> {
    sql::joined(domain_parts(p, mode))
}

/// The rows are read newest first: by default, and when an ascending walk steps back.
pub open spec fn descending(p: DomainListGetParam) -> bool {
    steps_back(p) == sql::is_asc(p.order)
}

/// The rows are ordered by time before they are ordered by id: only where
/// nothing but the time, or a domain in some filter mode, is filtered on.
pub open spec fn time_first(p: DomainListGetParam, mode: Option<Seq<char>>) -> bool {
    &&& p.id is None
    &&& (p.domain is None || mode is Some)
    &&& p.domain_type is None
    &&& client_cond(p).len() == 0
    &&& p.domain_group is None
    &&& p.reply_code is None
    &&& cursor_id(p) is None
    &&& p.is_blocked is None
    &&& p.is_cached is None
}

/// The `ORDER BY` clause of a request.
pub open spec fn domain_order(p: DomainListGetParam, mode: Option<Seq<char>>) -> Seq<char> {
    if descending(p) {
        if time_first(p, mode) {
            " ORDER BY timestamp DESC, id DESC"@
        } else {
            " ORDER BY id DESC, timestamp DESC"@
        }
    } else {
        if time_first(p, mode) {
            " ORDER BY timestamp ASC, id ASC"@
        } else {
            " ORDER BY id ASC, timestamp ASC"@
        }
    }
}

/// The filter mode of a request in lower case.
pub open spec fn lowered_mode(p: DomainListGetParam) -> Option<Seq<char>> {
    match p.domain_filter_mode {
        Some(m) => Some(text::unicode_lowercase(m@)),
        None => None,
    }
}

/// The clauses of a request whose filter mode reads `mode` in lower case; no
/// request, no clauses.
pub open spec fn domain_clauses(
    param: Option<&DomainListGetParam>,
    mode: Option<Seq<char>>,
) -> Result<sql::Clauses, DbError> {
    match param {
        None => Ok(sql::no_clauses()),
        Some(p) => match domain_filter_error(*p, mode) {
            Some(e) => Err(e),
            None => Ok(
                sql::Clauses {
                    where_text: sql::where_clause(domain_conds(*p, mode)),
                    order_text: domain_order(*p, mode),
                    args: sql::bound_args(domain_conds(*p, mode)),
                },
            ),
        },
    }
}

fn push_domain(list: &mut Vec<Condition>, p: &DomainListGetParam, mode: Option<&str>) -> (r: bool)
    ensures
        r == !(p.domain is Some && mode is Some && !mode_known(mode->0@)),
        r ==> sql::conds(final(list)@) == sql::conds(old(list)@) + domain_cond(
            *p,
            match mode {
                Some(m) => Some(m@),
                None => None,
            },
        ),
{
    if let Some(v) = &p.domain {
        if let Some(m) = mode {
            if text::same_text(m, "endswith") {
                sql::push_one(list, "domain LIKE ?", text::concat(v.as_str(), "%"));
            } else if text::same_text(m, "startswith") {
                sql::push_one(list, "domain LIKE ?", text::concat("%", v.as_str()));
            } else if text::same_text(m, "contains") {
                let mut pattern = text::concat("%", v.as_str());
                pattern.append("%");
                sql::push_one(list, "domain LIKE ?", pattern);
            } else if text::same_text(m, "equals") {
                sql::push_one(list, "domain = ?", v.clone());
            } else if text::same_text(m, "notempty") {
                sql::push_none(list, "domain IS NOT NULL AND domain <> ''");
            } else {
                return false;
            }
        } else {
            sql::push_one(list, "domain = ?", v.clone());
        }
    } else {
        assert(sql::conds(list@) =~= sql::conds(old(list)@) + Seq::<sql::Cond>::empty());
    }
    true
}

fn join_marks(n: usize) -> (r: String)
    ensures
        r@ == text::join(marks(n as nat), ","@),
{
    let mut r = String::new();
    let mut i: usize = 0;
    while i < n
        invariant
            i <= n,
            r@ == text::join(marks(i as nat), ","@),
        decreases n - i,
    {
        assert(marks((i + 1) as nat).drop_last() =~= marks(i as nat));
        if i > 0 {
            r.append(",");
        }
        r.append("?");
        i += 1;
    }
    r
}

fn push_client(list: &mut Vec<Condition>, p: &DomainListGetParam)
    ensures
        sql::conds(final(list)@) == sql::conds(old(list)@) + client_cond(*p),
{
    if let Some(ips) = &p.client_ips {
        if ips.len() > 0 {
            let mut clause = "client IN (".to_owned();
            clause.append(join_marks(ips.len()).as_str());
            clause.append(")");
            let mut args: Vec<String> = Vec::new();
            let mut i: usize = 0;
            while i < ips.len()
                invariant
                    i <= ips@.len(),
                    args@.len() == i,
                    forall|j: int| 0 <= j < i ==> (#[trigger] args@[j])@ == ips@[j]@,
                decreases ips@.len() - i,
            {
                args.push(ips[i].clone());
                i += 1;
            }
            assert(text::texts(args@) =~= text::texts(ips@));
            list.push(Condition { text: clause, args });
        }
    } else if let Some(v) = &p.client {
        sql::push_one(list, "client = ?", v.clone());
    }
    assert(sql::conds(list@) =~= sql::conds(old(list)@) + client_cond(*p));
}

fn push_time(list: &mut Vec<Condition>, p: &DomainListGetParam, back: bool, asc: bool)
    requires
        back == steps_back(*p),
        asc == sql::is_asc(p.order),
    ensures
        sql::conds(final(list)@) == sql::conds(old(list)@) + before_cond(*p) + after_cond(*p)
            + cursor_cond(*p),
{
    let at: Option<u64> = match &p.cursor {
        Some(c) => c.id,
        None => None,
    };
    let mut bounded = false;

    if let Some(v) = p.timestamp_before {
        let mut use_cursor = false;
        if !back || asc {
            if let Some(id) = at {
                sql::push_one(list, "id < ?", text::decimal_text(id));
                use_cursor = true;
                bounded = true;
            }
        }
        if !use_cursor {
            sql::push_one(list, "timestamp <= ?", text::decimal_text(v));
        }
    }
    assert(sql::conds(list@) =~= sql::conds(old(list)@) + before_cond(*p));

    if let Some(v) = p.timestamp_after {
        let mut use_cursor = false;
        if back || asc {
            if let Some(id) = at {
                sql::push_one(list, "id > ?", text::decimal_text(id));
                use_cursor = true;
                bounded = true;
            }
        }
        if !use_cursor {
            sql::push_one(list, "timestamp >= ?", text::decimal_text(v));
        }
    }
    assert(sql::conds(list@) =~= sql::conds(old(list)@) + before_cond(*p) + after_cond(*p));

    if !bounded {
        if let Some(id) = at {
            if back == asc {
                sql::push_one(list, "id < ?", text::decimal_text(id));
            } else {
                sql::push_one(list, "id > ?", text::decimal_text(id));
            }
        }
    }
    assert(sql::conds(list@) =~= sql::conds(old(list)@) + before_cond(*p) + after_cond(*p)
        + cursor_cond(*p));
}

/// The clauses of a request whose filter mode reads `mode` in lower case.
#[verifier::rlimit(40)]
pub fn domain_sql_where(param: Option<&DomainListGetParam>, mode: Option<&str>) -> (r: Result<
    (String, String, Vec<String>),
    DbError,
>)
    ensures
        sql::clauses_of(r) == domain_clauses(
            param,
            match mode {
                Some(m) => Some(m@),
                None => None,
            },
        ),
{
    let ghost lowered: Option<Seq<char>> = match mode {
        Some(m) => Some(m@),
        None => None,
    };
    let p = match param {
        Some(p) => p,
        None => {
            let none: Vec<String> = Vec::new();
            assert(text::texts(none@) =~= Seq::empty());
            return Ok((String::new(), String::new(), none));
        },
    };

    let mut asc = false;
    if let Some(v) = &p.order {
        if text::eq_ignore_ascii_case(v.as_str(), "asc") {
            asc = true;
        } else if !text::eq_ignore_ascii_case(v.as_str(), "desc") {
            return Err(DbError::OrderParam);
        }
    }

    let mut back = false;
    if let Some(c) = &p.cursor {
        if text::eq_ignore_ascii_case(c.direction.as_str(), "prev") {
            back = true;
        } else if !text::eq_ignore_ascii_case(c.direction.as_str(), "next") {
            return Err(DbError::CursorDirectionParam);
        }
    }

    let mut list: Vec<Condition> = Vec::new();
    if let Some(v) = p.id {
        sql::push_one(&mut list, "id = ?", text::decimal_text(v));
    }
    let ghost parts = Seq::<Seq<sql::Cond>>::empty().push(id_cond(*p));
    assert(sql::conds(list@) =~= sql::joined(parts)) by {
        sql::lemma_joined_none();
        sql::lemma_joined_push(Seq::empty(), id_cond(*p));
    }
    if !push_domain(&mut list, p, mode) {
        return Err(DbError::DomainFilterModeParam);
    }
    proof {
        sql::lemma_joined_push(parts, domain_cond(*p, lowered));
    }
    let ghost parts = parts.push(domain_cond(*p, lowered));
    if let Some(v) = p.domain_type {
        sql::push_one(&mut list, "domain_type = ?", text::decimal_text(v as u64));
    }
    proof {
        sql::lemma_joined_push(parts, type_cond(*p));
    }
    let ghost parts = parts.push(type_cond(*p));
    assert(sql::conds(list@) =~= sql::joined(parts));
    let unfiltered: usize = list.len();
    push_client(&mut list, p);
    let by_client = list.len() > unfiltered;
    proof {
        sql::lemma_joined_push(parts, client_cond(*p));
    }
    let ghost parts = parts.push(client_cond(*p));
    if let Some(v) = &p.domain_group {
        sql::push_one(&mut list, "domain_group = ?", v.clone());
    }
    proof {
        sql::lemma_joined_push(parts, group_cond(*p));
    }
    let ghost parts = parts.push(group_cond(*p));
    assert(sql::conds(list@) =~= sql::joined(parts));
    if let Some(v) = p.reply_code {
        sql::push_one(&mut list, "reply_code = ?", text::decimal_text(v as u64));
    }
    proof {
        sql::lemma_joined_push(parts, reply_cond(*p));
    }
    let ghost parts = parts.push(reply_cond(*p));
    assert(sql::conds(list@) =~= sql::joined(parts));
    push_time(&mut list, p, back, asc);
    proof {
        sql::lemma_joined_push(parts, before_cond(*p));
        sql::lemma_joined_push(parts.push(before_cond(*p)), after_cond(*p));
        sql::lemma_joined_push(
            parts.push(before_cond(*p)).push(after_cond(*p)),
            cursor_cond(*p),
        );
    }
    let ghost parts = parts.push(before_cond(*p)).push(after_cond(*p)).push(cursor_cond(*p));
    if let Some(v) = p.is_blocked {
        if v {
            sql::push_none(&mut list, "is_blocked = 1");
        } else {
            sql::push_none(&mut list, "is_blocked = 0");
        }
    }
    proof {
        sql::lemma_joined_push(parts, blocked_cond(*p));
    }
    let ghost parts = parts.push(blocked_cond(*p));
    assert(sql::conds(list@) =~= sql::joined(parts));
    if let Some(v) = p.is_cached {
        if v {
            sql::push_none(&mut list, "is_cached = 1");
        } else {
            sql::push_none(&mut list, "is_cached = 0");
        }
    }
    proof {
        sql::lemma_joined_push(parts, cached_cond(*p));
    }
    let ghost parts = parts.push(cached_cond(*p));
    assert(sql::conds(list@) =~= sql::joined(parts));
    assert(parts =~= domain_parts(*p, lowered));

    let at_row = match &p.cursor {
        Some(c) => c.id.is_some(),
        None => false,
    };
    let time_first = p.id.is_none() && (p.domain.is_none() || mode.is_some())
        && p.domain_type.is_none() && !by_client && p.domain_group.is_none()
        && p.reply_code.is_none() && !at_row && p.is_blocked.is_none() && p.is_cached.is_none();
    let order: &str = if back == asc {
        if time_first {
            " ORDER BY timestamp DESC, id DESC"
        } else {
            " ORDER BY id DESC, timestamp DESC"
        }
    } else {
        if time_first {
            " ORDER BY timestamp ASC, id ASC"
        } else {
            " ORDER BY id ASC, timestamp ASC"
        }
    };

    let (clause, args) = sql::render_where(list);
    Ok((clause, order.to_owned(), args))
}

impl DB {
    /// # Returns
    ///
    /// A tuple containing:
    /// - `String`: The SQL WHERE clause.
    /// - `String`: The SQL ORDER BY clause.
    /// - `Vec<String>`: The parameters for the SQL query.
    pub fn get_domain_sql_where(param: Option<&DomainListGetParam>) -> (r: Result<
        (String, String, Vec<String>),
        DbError,
    >)
        ensures
            sql::clauses_of(r) == domain_request(param),
    {
        match param {
            Some(p) => match &p.domain_filter_mode {
                Some(m) => {
                    let lowered = m.as_str().to_lowercase();
                    domain_sql_where(param, Some(lowered.as_str()))
                },
                None => domain_sql_where(param, None),
            },
            None => domain_sql_where(None, None),
        }
    }
}

/// The limit of a page: its size alone where a cursor stands on a row, else
/// with the rows of the earlier pages skipped.
pub open spec fn domain_limit(p: DomainListGetParam) -> Seq<char> {
    if cursor_id(p) is Some {
        " LIMIT ?"@
    } else {
        " LIMIT ? OFFSET ?"@
    }
}

/// The texts of the placeholders of [`domain_limit`].
pub open spec fn domain_limit_args(p: DomainListGetParam) -> Seq<Seq<char>> {
    if cursor_id(p) is Some {
        seq![text::decimal(p.page_size as nat)]
    } else {
        seq![
            text::decimal(p.page_size as nat),
            text::decimal(((p.page_num - 1) * p.page_size) as nat),
        ]
    }
}

/// The query for one page of the log.
pub open spec fn domain_page(param: Option<&DomainListGetParam>, c: sql::Clauses) -> sql::Command {
    let base = "SELECT id, timestamp, domain, domain_type, client, domain_group, reply_code, query_time, ping_time, is_blocked, is_cached FROM domain"@
        + c.where_text + c.order_text;
    match param {
        None => sql::Command { sql: base, params: sql::text_values(c.args) },
        Some(p) => sql::Command {
            sql: base + domain_limit(*p),
            params: sql::text_values(c.args + domain_limit_args(*p)),
        },
    }
}

/// Builds the query for one page of the log from the clauses of the request.
pub fn domain_list_query(
    param: Option<&DomainListGetParam>,
    clauses: (String, String, Vec<String>),
) -> (r: Statement)
    requires
        domain_page_in_range(param),
    ensures
        r@ == domain_page(param, sql::clauses(clauses)),
{
    let ghost c = sql::clauses(clauses);
    let (where_text, order_text, args) = clauses;
    let mut args = args;
    let mut query = "SELECT id, timestamp, domain, domain_type, client, domain_group, reply_code, query_time, ping_time, is_blocked, is_cached FROM domain".to_owned();
    query.append(where_text.as_str());
    query.append(order_text.as_str());
    if let Some(p) = param {
        let at_row = match &p.cursor {
            Some(cursor) => cursor.id.is_some(),
            None => false,
        };
        if at_row {
            query.append(" LIMIT ?");
            args.push(text::decimal_text(p.page_size));
        } else {
            query.append(" LIMIT ? OFFSET ?");
            args.push(text::decimal_text(p.page_size));
            args.push(text::decimal_text(sql::page_offset(p.page_num, p.page_size)));
        }
        assert(text::texts(args@) =~= c.args + domain_limit_args(*p));
    }
    Statement { sql: query, params: sql::text_params(args) }
}

/// The query that counts the rows of a request; a refused request counts the whole log.
pub open spec fn domain_count(c: Result<sql::Clauses, DbError>) -> sql::Command {
    match c {
        Ok(c) => sql::Command {
            sql: "SELECT COUNT(*) FROM domain"@ + c.where_text + c.order_text,
            params: sql::text_values(c.args),
        },
        Err(_) => sql::bare("SELECT COUNT(*) FROM domain"@),
    }
}

/// Builds the query that counts the rows of a request from the request's clauses.
pub fn domain_count_query(clauses: Result<(String, String, Vec<String>), DbError>) -> (r: Statement)
    ensures
        r@ == domain_count(sql::clauses_of(clauses)),
{
    match clauses {
        Ok((where_text, order_text, args)) => {
            let mut query = "SELECT COUNT(*) FROM domain".to_owned();
            query.append(where_text.as_str());
            query.append(order_text.as_str());
            Statement { sql: query, params: sql::text_params(args) }
        },
        Err(_) => sql::bare_statement("SELECT COUNT(*) FROM domain"),
    }
}

/// Whether the page's total comes from a count of the rows; a cursor carries its own.
pub fn domain_total_is_counted(param: Option<&DomainListGetParam>) -> (r: bool)
    ensures
        r == (param matches Some(p) && p.cursor is None),
{
    match param {
        Some(p) => p.cursor.is_none(),
        None => false,
    }
}

/// Puts a page together from its rows and, where no cursor carries it, from the count.
pub fn domain_list_result(
    param: Option<&DomainListGetParam>,
    found: Vec<Option<DomainData>>,
    counted: u64,
) -> (r: QueryDomainListResult)
    ensures
        r.domain_list@ == match param {
            Some(p) => page_rows(*p, rows::readable(found@)),
            None => rows::readable(found@),
        },
        r.total_count == match param {
            None => 0,
            Some(p) => match p.cursor {
                Some(c) => c.total_count,
                None => counted,
            },
        },
        r.step_by_cursor == (param matches Some(p) && p.cursor is Some),
{
    let list = rows::keep_readable(found);
    match param {
        None => QueryDomainListResult { domain_list: list, total_count: 0, step_by_cursor: false },
        Some(p) => match &p.cursor {
            None => QueryDomainListResult {
                domain_list: list,
                total_count: counted,
                step_by_cursor: false,
            },
            Some(c) => {
                let back = text::eq_ignore_ascii_case(c.direction.as_str(), "prev");
                QueryDomainListResult {
                    domain_list: if back {
                        rows::reversed(list)
                    } else {
                        list
                    },
                    total_count: c.total_count,
                    step_by_cursor: true,
                }
            },
        },
    }
}

/// The clauses of a request, as the store reads it.
pub open spec fn domain_request(param: Option<&DomainListGetParam>) -> Result<
    sql::Clauses,
    DbError,
> {
    domain_clauses(
        param,
        match param {
            Some(p) => lowered_mode(*p),
            None => None,
        },
    )
}

/// The page of a request can be counted off.
pub open spec fn domain_page_in_range(param: Option<&DomainListGetParam>) -> bool {
    param matches Some(p) ==> cursor_id(*p) is None ==> sql::page_in_range(p.page_num, p.page_size)
}

/// Tells whether the page of a request can be counted off.
pub fn domain_page_fits(param: Option<&DomainListGetParam>) -> (r: bool)
    ensures
        r == domain_page_in_range(param),
{
    match param {
        Some(p) => {
            let at_row = match &p.cursor {
                Some(cursor) => cursor.id.is_some(),
                None => false,
            };
            at_row || sql::page_fits(p.page_num, p.page_size)
        },
        None => true,
    }
}

impl DB {
    /// The query for one page of the log; none where the page cannot be counted off.
    pub fn get_domain_list(&self, param: Option<&DomainListGetParam>) -> (r: Result<
        Option<Statement>,
        DbError,
    >)
        ensures
            match r {
                Ok(Some(s)) => self.is_open && domain_page_in_range(param) && (domain_request(
                    param,
                ) matches Ok(c) && s@ == domain_page(param, c)),
                Ok(None) => self.is_open && !domain_page_in_range(param) && domain_request(
                    param,
                ) is Ok,
                Err(e) => if self.is_open {
                    domain_request(param) == Err::<sql::Clauses, DbError>(e)
                } else {
                    e == DbError::NotOpen
                },
            },
    {
        if !self.is_open {
            return Err(DbError::NotOpen);
        }
        match DB::get_domain_sql_where(param) {
            Ok(clauses) => if domain_page_fits(param) {
                Ok(Some(domain_list_query(param, clauses)))
            } else {
                Ok(None)
            },
            Err(e) => Err(e),
        }
    }

    /// The query that counts the rows of a request; none where no database is
    /// attached, and the count is 0.
    pub fn get_domain_list_count(&self, param: Option<&DomainListGetParam>) -> (r: Option<Statement>)
        ensures
            match r {
                Some(s) => self.is_open && s@ == domain_count(domain_request(param)),
                None => !self.is_open,
            },
    {
        if !self.is_open {
            return None;
        }
        Some(domain_count_query(DB::get_domain_sql_where(param)))
    }
}

proof fn lemma_marks_placeholders(n: nat)
    requires
        n > 0,
    ensures
        sql::placeholders(text::join(marks(n), ","@)) == n,
    decreases n,
{
    reveal_strlit("?");
    reveal_strlit(",");
    sql::lemma_placeholders_last("?"@);
    if n > 1 {
        let rest = (n - 1) as nat;
        lemma_marks_placeholders(rest);
        assert(marks(n).drop_last() =~= marks(rest));
        let head = text::join(marks(rest), ","@);
        sql::lemma_placeholders_none(","@);
        sql::lemma_placeholders_add(head, ","@);
        sql::lemma_placeholders_add(head + ","@, "?"@);
    }
}

proof fn lemma_literals_bound()
    ensures
        sql::placeholders("id = ?"@) == 1,
        sql::placeholders("domain = ?"@) == 1,
        sql::placeholders("domain LIKE ?"@) == 1,
        sql::placeholders("domain IS NOT NULL AND domain <> ''"@) == 0,
        sql::placeholders("domain_type = ?"@) == 1,
        sql::placeholders("client = ?"@) == 1,
        sql::placeholders("client IN ("@) == 0,
        sql::placeholders(")"@) == 0,
        sql::placeholders("domain_group = ?"@) == 1,
        sql::placeholders("reply_code = ?"@) == 1,
        sql::placeholders("id < ?"@) == 1,
        sql::placeholders("id > ?"@) == 1,
        sql::placeholders("timestamp <= ?"@) == 1,
        sql::placeholders("timestamp >= ?"@) == 1,
        sql::placeholders("is_blocked = 1"@) == 0,
        sql::placeholders("is_blocked = 0"@) == 0,
        sql::placeholders("is_cached = 1"@) == 0,
        sql::placeholders("is_cached = 0"@) == 0,
{
    reveal_strlit("id = ?");
    reveal_strlit("domain = ?");
    reveal_strlit("domain LIKE ?");
    reveal_strlit("domain IS NOT NULL AND domain <> ''");
    reveal_strlit("domain_type = ?");
    reveal_strlit("client = ?");
    reveal_strlit("client IN (");
    reveal_strlit(")");
    reveal_strlit("domain_group = ?");
    reveal_strlit("reply_code = ?");
    reveal_strlit("id < ?");
    reveal_strlit("id > ?");
    reveal_strlit("timestamp <= ?");
    reveal_strlit("timestamp >= ?");
    reveal_strlit("is_blocked = 1");
    reveal_strlit("is_blocked = 0");
    reveal_strlit("is_cached = 1");
    reveal_strlit("is_cached = 0");
    sql::lemma_placeholders_last("id = ?"@);
    sql::lemma_placeholders_last("domain = ?"@);
    sql::lemma_placeholders_last("domain LIKE ?"@);
    sql::lemma_placeholders_none("domain IS NOT NULL AND domain <> ''"@);
    sql::lemma_placeholders_last("domain_type = ?"@);
    sql::lemma_placeholders_last("client = ?"@);
    sql::lemma_placeholders_none("client IN ("@);
    sql::lemma_placeholders_none(")"@);
    sql::lemma_placeholders_last("domain_group = ?"@);
    sql::lemma_placeholders_last("reply_code = ?"@);
    sql::lemma_placeholders_last("id < ?"@);
    sql::lemma_placeholders_last("id > ?"@);
    sql::lemma_placeholders_last("timestamp <= ?"@);
    sql::lemma_placeholders_last("timestamp >= ?"@);
    sql::lemma_placeholders_none("is_blocked = 1"@);
    sql::lemma_placeholders_none("is_blocked = 0"@);
    sql::lemma_placeholders_none("is_cached = 1"@);
    sql::lemma_placeholders_none("is_cached = 0"@);
}

proof fn lemma_conds_bound(p: DomainListGetParam, mode: Option<Seq<char>>)
    ensures
        sql::all_bound(id_cond(p)),
        sql::all_bound(domain_cond(p, mode)),
        sql::all_bound(type_cond(p)),
        sql::all_bound(client_cond(p)),
        sql::all_bound(group_cond(p)),
        sql::all_bound(reply_cond(p)),
        sql::all_bound(before_cond(p)),
        sql::all_bound(after_cond(p)),
        sql::all_bound(cursor_cond(p)),
        sql::all_bound(blocked_cond(p)),
        sql::all_bound(cached_cond(p)),
{
    lemma_literals_bound();
    if p.client_ips is Some && p.client_ips->0@.len() > 0 {
        let ips = p.client_ips->0;
        let inner = text::join(marks(ips@.len()), ","@);
        lemma_marks_placeholders(ips@.len());
        sql::lemma_placeholders_add("client IN ("@, inner);
        sql::lemma_placeholders_add("client IN ("@ + inner, ")"@);
    }
}

/// Every placeholder of a request's `WHERE` clause has a text bound to it, and
/// every bound text a placeholder.
pub proof fn law_domain_filter_is_bound(p: DomainListGetParam, mode: Option<Seq<char>>)
    ensures
        sql::placeholders(sql::where_clause(domain_conds(p, mode))) == sql::bound_args(
            domain_conds(p, mode),
        ).len(),
{
    lemma_conds_bound(p, mode);
    sql::lemma_joined_bound(domain_parts(p, mode));
    sql::law_where_clause_is_bound(domain_conds(p, mode));
}

/// The two options are both present or both absent.
pub open spec fn alike<A, B>(a: Option<A>, b: Option<B>) -> bool {
    a is Some <==> b is Some
}

/// Two requests that ask for the same kind of page and differ in values only.
pub open spec fn same_shape(p: DomainListGetParam, q: DomainListGetParam) -> bool {
    &&& alike(p.id, q.id)
    &&& sql::is_asc(p.order) == sql::is_asc(q.order)
    &&& alike(p.domain, q.domain)
    &&& alike(p.domain_type, q.domain_type)
    &&& alike(p.client, q.client)
    &&& alike(p.client_ips, q.client_ips)
    &&& p.client_ips is Some ==> p.client_ips->0@.len() == q.client_ips->0@.len()
    &&& alike(p.domain_group, q.domain_group)
    &&& alike(p.reply_code, q.reply_code)
    &&& alike(p.timestamp_before, q.timestamp_before)
    &&& alike(p.timestamp_after, q.timestamp_after)
    &&& alike(cursor_id(p), cursor_id(q))
    &&& steps_back(p) == steps_back(q)
    &&& p.is_blocked == q.is_blocked
    &&& p.is_cached == q.is_cached
}

proof fn lemma_same_cond_texts(
    p: DomainListGetParam,
    q: DomainListGetParam,
    mode: Option<Seq<char>>,
)
    requires
        same_shape(p, q),
    ensures
        sql::cond_texts(id_cond(p)) == sql::cond_texts(id_cond(q)),
        sql::cond_texts(domain_cond(p, mode)) == sql::cond_texts(domain_cond(q, mode)),
        sql::cond_texts(type_cond(p)) == sql::cond_texts(type_cond(q)),
        sql::cond_texts(client_cond(p)) == sql::cond_texts(client_cond(q)),
        sql::cond_texts(group_cond(p)) == sql::cond_texts(group_cond(q)),
        sql::cond_texts(reply_cond(p)) == sql::cond_texts(reply_cond(q)),
        sql::cond_texts(before_cond(p)) == sql::cond_texts(before_cond(q)),
        sql::cond_texts(after_cond(p)) == sql::cond_texts(after_cond(q)),
        sql::cond_texts(cursor_cond(p)) == sql::cond_texts(cursor_cond(q)),
        sql::cond_texts(blocked_cond(p)) == sql::cond_texts(blocked_cond(q)),
        sql::cond_texts(cached_cond(p)) == sql::cond_texts(cached_cond(q)),
{
    assert(sql::cond_texts(id_cond(p)) =~= sql::cond_texts(id_cond(q)));
    assert(sql::cond_texts(domain_cond(p, mode)) =~= sql::cond_texts(domain_cond(q, mode)));
    assert(sql::cond_texts(type_cond(p)) =~= sql::cond_texts(type_cond(q)));
    assert(sql::cond_texts(client_cond(p)) =~= sql::cond_texts(client_cond(q)));
    assert(sql::cond_texts(group_cond(p)) =~= sql::cond_texts(group_cond(q)));
    assert(sql::cond_texts(reply_cond(p)) =~= sql::cond_texts(reply_cond(q)));
    assert(sql::cond_texts(before_cond(p)) =~= sql::cond_texts(before_cond(q)));
    assert(sql::cond_texts(after_cond(p)) =~= sql::cond_texts(after_cond(q)));
    assert(sql::cond_texts(cursor_cond(p)) =~= sql::cond_texts(cursor_cond(q)));
    assert(sql::cond_texts(blocked_cond(p)) =~= sql::cond_texts(blocked_cond(q)));
    assert(sql::cond_texts(cached_cond(p)) =~= sql::cond_texts(cached_cond(q)));
}

/// No value of a request is written into the statement: requests that differ in
/// values only get the same clauses.
pub proof fn law_domain_values_stay_out_of_the_statement(
    p: DomainListGetParam,
    q: DomainListGetParam,
    mode: Option<Seq<char>>,
)
    requires
        same_shape(p, q),
    ensures
        sql::where_clause(domain_conds(p, mode)) == sql::where_clause(domain_conds(q, mode)),
        domain_order(p, mode) == domain_order(q, mode),
{
    lemma_same_cond_texts(p, q, mode);
    sql::lemma_joined_texts(domain_parts(p, mode), domain_parts(q, mode));
    sql::lemma_same_texts_same_clause(domain_conds(p, mode), domain_conds(q, mode));
    assert(sql::cond_texts(client_cond(p)).len() == sql::cond_texts(client_cond(q)).len());
}

proof fn lemma_page_literals_bound()
    ensures
        sql::placeholders(
            "SELECT id, timestamp, domain, domain_type, client, domain_group, reply_code, query_time, ping_time, is_blocked, is_cached FROM domain"@,
        ) == 0,
        sql::placeholders("SELECT COUNT(*) FROM domain"@) == 0,
        sql::placeholders(" ORDER BY timestamp DESC, id DESC"@) == 0,
        sql::placeholders(" ORDER BY id DESC, timestamp DESC"@) == 0,
        sql::placeholders(" ORDER BY timestamp ASC, id ASC"@) == 0,
        sql::placeholders(" ORDER BY id ASC, timestamp ASC"@) == 0,
        sql::placeholders(" LIMIT ?"@) == 1,
        sql::placeholders(" LIMIT ? OFFSET ?"@) == 2,
{
    reveal_strlit(
        "SELECT id, timestamp, domain, domain_type, client, domain_group, reply_code, query_time, ping_time, is_blocked, is_cached FROM domain",
    );
    reveal_strlit("SELECT COUNT(*) FROM domain");
    reveal_strlit(" ORDER BY timestamp DESC, id DESC");
    reveal_strlit(" ORDER BY id DESC, timestamp DESC");
    reveal_strlit(" ORDER BY timestamp ASC, id ASC");
    reveal_strlit(" ORDER BY id ASC, timestamp ASC");
    reveal_strlit(" LIMIT ?");
    reveal_strlit(" LIMIT ? OFFSET ?");
    sql::lemma_placeholders_none(
        "SELECT id, timestamp, domain, domain_type, client, domain_group, reply_code, query_time, ping_time, is_blocked, is_cached FROM domain"@,
    );
    sql::lemma_placeholders_none("SELECT COUNT(*) FROM domain"@);
    sql::lemma_placeholders_none(" ORDER BY timestamp DESC, id DESC"@);
    sql::lemma_placeholders_none(" ORDER BY id DESC, timestamp DESC"@);
    sql::lemma_placeholders_none(" ORDER BY timestamp ASC, id ASC"@);
    sql::lemma_placeholders_none(" ORDER BY id ASC, timestamp ASC"@);
    sql::lemma_placeholders_last(" LIMIT ?"@);
    let both = " LIMIT ? OFFSET ?"@;
    sql::lemma_placeholders_add(both.take(8), both.skip(8));
    assert(both =~= both.take(8) + both.skip(8));
    sql::lemma_placeholders_last(both.take(8));
    sql::lemma_placeholders_last(both.skip(8));
}

/// The queries for a page of the log and for its count have as many
/// placeholders as values.
pub proof fn law_domain_queries_are_bound(p: DomainListGetParam, mode: Option<Seq<char>>)
    requires
        domain_clauses(Some(&p), mode) is Ok,
    ensures
        ({
            let c = domain_clauses(Some(&p), mode)->Ok_0;
            let page = domain_page(Some(&p), c);
            let count = domain_count(Ok(c));
            &&& sql::placeholders(page.sql) == page.params.len()
            &&& sql::placeholders(count.sql) == count.params.len()
        }),
{
    let c = domain_clauses(Some(&p), mode)->Ok_0;
    lemma_page_literals_bound();
    law_domain_filter_is_bound(p, mode);
    let select = "SELECT id, timestamp, domain, domain_type, client, domain_group, reply_code, query_time, ping_time, is_blocked, is_cached FROM domain"@;
    let counting = "SELECT COUNT(*) FROM domain"@;
    assert(sql::placeholders(c.order_text) == 0);
    sql::lemma_placeholders_add(select, c.where_text);
    sql::lemma_placeholders_add(select + c.where_text, c.order_text);
    sql::lemma_placeholders_add(select + c.where_text + c.order_text, domain_limit(p));
    sql::lemma_placeholders_add(counting, c.where_text);
    sql::lemma_placeholders_add(counting + c.where_text, c.order_text);
}

/// The rows of a page, as they are handed out.
pub open spec fn page_rows(p: DomainListGetParam, s: Seq<DomainData>) -> Seq<DomainData> {
    if steps_back(p) {
        s.reverse()
    } else {
        s
    }
}

/// The id of a row.
pub open spec fn row_id() -> spec_fn(DomainData) -> int {
    |d: DomainData| d.id as int
}

/// The rows that meet the condition of a request's cursor.
pub open spec fn passes_cursor(p: DomainListGetParam) -> spec_fn(DomainData) -> bool {
    match cursor_bound(p) {
        Some((below, at)) => paging::behind(row_id(), below, at as int),
        None => |d: DomainData| true,
    }
}

/// The page of a request with a cursor on a row. `rows` are the rows that meet
/// its other conditions, in the order that it asks for; they are read in the
/// order of the statement, those that meet the cursor's condition are kept, as
/// many as fit on the page, and handed out.
pub open spec fn cursor_page(p: DomainListGetParam, rows: Seq<DomainData>) -> Seq<DomainData> {
    page_rows(
        p,
        paging::first(page_rows(p, rows).filter(passes_cursor(p)), p.page_size as nat),
    )
}

/// The rows are ordered by id as a request asks.
pub open spec fn in_requested_order(p: DomainListGetParam, rows: Seq<DomainData>) -> bool {
    paging::is_ordered(rows, row_id(), !sql::is_asc(p.order))
}

/// A page comes in the order that was asked for, whichever way its cursor
/// goes: a cursor that steps back has the rows read the other way round, and
/// they are turned round again.
pub proof fn law_page_comes_in_the_requested_order(p: DomainListGetParam, found: Seq<DomainData>)
    requires
        paging::is_ordered(found, row_id(), descending(p)),
    ensures
        in_requested_order(p, page_rows(p, found)),
{
    if steps_back(p) {
        paging::lemma_reversed_order(found, row_id(), descending(p));
    }
}

/// A request with a cursor on a row reads its rows by id, and rows that are
/// turned to the order of the statement are in that order.
pub proof fn law_statement_reads_in_its_order(
    p: DomainListGetParam,
    mode: Option<Seq<char>>,
    rows: Seq<DomainData>,
)
    requires
        in_requested_order(p, rows),
        cursor_id(p) is Some,
    ensures
        domain_order(p, mode) == if descending(p) {
            " ORDER BY id DESC, timestamp DESC"@
        } else {
            " ORDER BY id ASC, timestamp ASC"@
        },
        paging::is_ordered(page_rows(p, rows), row_id(), descending(p)),
{
    if steps_back(p) {
        paging::lemma_reversed_order(rows, row_id(), !sql::is_asc(p.order));
    }
}

/// A page with a cursor on a row is a run of the list.
proof fn lemma_cursor_page_is_a_run(p: DomainListGetParam, rows: Seq<DomainData>) -> (start: int)
    requires
        in_requested_order(p, rows),
        p.timestamp_before is None,
        p.timestamp_after is None,
        cursor_id(p) is Some,
    ensures
        0 <= start <= start + cursor_page(p, rows).len() <= rows.len(),
        cursor_page(p, rows) == rows.subrange(start, start + cursor_page(p, rows).len()),
{
    let read = page_rows(p, rows);
    let at = cursor_id(p)->0 as int;
    law_statement_reads_in_its_order(p, None, rows);
    let n = paging::lemma_cut(read, row_id(), descending(p), at);
    let kept = paging::first(read.skip(n), p.page_size as nat);
    assert(cursor_page(p, rows) == page_rows(p, kept));
    if steps_back(p) {
        let start = rows.len() - n - kept.len();
        assert(kept.reverse() =~= rows.subrange(start, start + kept.len()));
        start
    } else {
        assert(kept =~= rows.subrange(n, n + kept.len()));
        n
    }
}

/// Two requests that differ in their cursors only.
pub open spec fn same_but_cursor(p: DomainListGetParam, q: DomainListGetParam) -> bool {
    q == (DomainListGetParam { cursor: q.cursor, ..p })
}

/// The cursor of a request stands on the row and steps that way.
pub open spec fn steps_from(p: DomainListGetParam, id: u64, direction: Seq<char>) -> bool {
    p.cursor matches Some(c) && c.id == Some(id) && c.direction@ == direction
}

/// The next page goes on directly behind the last row of a page, in the order
/// asked for.
pub proof fn law_next_page_follows(
    p: DomainListGetParam,
    rows: Seq<DomainData>,
    k: int,
)
    requires
        in_requested_order(p, rows),
        p.timestamp_before is None,
        p.timestamp_after is None,
        0 <= k < rows.len(),
        steps_from(p, rows[k].id, "next"@),
    ensures
        cursor_page(p, rows) == paging::first(rows.skip(k + 1), p.page_size as nat),
{
    reveal_strlit("next");
    reveal_strlit("prev");
    assert("next"@[0] == 'n' && "prev"@[0] == 'p');
    assert(!steps_back(p));
    paging::law_page_goes_on_behind_a_row(
        rows,
        row_id(),
        descending(p),
        k,
        p.page_size as nat,
    );
}

/// The page before ends directly before the row of its cursor, in the order
/// asked for.
pub proof fn law_page_before_precedes(p: DomainListGetParam, rows: Seq<DomainData>, k: int)
    requires
        in_requested_order(p, rows),
        p.timestamp_before is None,
        p.timestamp_after is None,
        0 <= k < rows.len(),
        steps_from(p, rows[k].id, "prev"@),
    ensures
        cursor_page(p, rows) == rows.subrange(
            if k <= p.page_size {
                0
            } else {
                k - p.page_size
            },
            k,
        ),
{
    assert(steps_back(p));
    paging::law_page_ends_before_a_row(
        rows,
        row_id(),
        !descending(p),
        k,
        p.page_size as nat,
    );
}

/// Stepping on from a full page and back again gives the same page, its rows
/// in the same order. `p` asked for the page with a cursor, `q` steps on from
/// its last row, and `back` steps back from the first row of what came then.
pub proof fn law_step_on_and_back(
    p: DomainListGetParam,
    q: DomainListGetParam,
    back: DomainListGetParam,
    rows: Seq<DomainData>,
)
    requires
        in_requested_order(p, rows),
        p.timestamp_before is None,
        p.timestamp_after is None,
        cursor_id(p) is Some,
        p.page_size >= 1,
        cursor_page(p, rows).len() == p.page_size,
        same_but_cursor(p, q),
        steps_from(q, cursor_page(p, rows).last().id, "next"@),
        cursor_page(q, rows).len() > 0,
        same_but_cursor(p, back),
        steps_from(back, cursor_page(q, rows)[0].id, "prev"@),
    ensures
        cursor_page(back, rows) == cursor_page(p, rows),
{
    let start = lemma_cursor_page_is_a_run(p, rows);
    let end = start + p.page_size;
    law_next_page_follows(q, rows, end - 1);
    assert(cursor_page(q, rows)[0] == rows[end]);
    law_page_before_precedes(back, rows, end);
}

} // verus!
