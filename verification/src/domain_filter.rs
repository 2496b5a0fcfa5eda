//! What a request for rows of the query log selects.

use vstd::prelude::*;

use crate::domain_list;
use crate::error::DbError;
use crate::model;
use crate::model::{DomainData, DomainListGetParam};
use crate::relational;
use crate::relational::{Cell, Test};
use crate::sql;
use crate::text;

verus! {

pub open spec fn flag_cell(v: bool) -> Cell {
    Cell::Number(
        if v {
            1
        } else {
            0
        },
    )
}

/// The columns of a row of the log, by their names.
pub open spec fn log_column(d: DomainData) -> spec_fn(Seq<char>) -> Cell {
    |name: Seq<char>|
        if name == "id"@ {
            Cell::Number(d.id as int)
        } else if name == "timestamp"@ {
            Cell::Number(d.timestamp as int)
        } else if name == "domain"@ {
            Cell::Text(d.domain@)
        } else if name == "domain_type"@ {
            Cell::Number(d.domain_type as int)
        } else if name == "client"@ {
            Cell::Text(d.client@)
        } else if name == "domain_group"@ {
            Cell::Text(d.domain_group@)
        } else if name == "reply_code"@ {
            Cell::Number(d.reply_code as int)
        } else if name == "query_time"@ {
            Cell::Number(d.query_time as int)
        } else if name == "ping_time"@ {
            Cell::Real(d.ping_time)
        } else if name == "is_blocked"@ {
            flag_cell(d.is_blocked)
        } else if name == "is_cached"@ {
            flag_cell(d.is_cached)
        } else {
            Cell::Text(Seq::empty())
        }
}

/// The domain is one that is asked for; the mode says how, in lower case.
pub open spec fn domain_asked_for(
    p: DomainListGetParam,
    mode: Option<Seq<char>>,
    domain: Seq<char>,
    like: spec_fn(Seq<char>, Seq<char>) -> bool,
) -> bool {
    p.domain matches Some(v) ==> match mode {
        None => domain == v@,
        Some(m) => {
            &&& m == "equals"@ ==> domain == v@
            &&& m == "contains"@ ==> like(seq!['%'] + v@ + seq!['%'], domain)
            &&& m == "endswith"@ ==> like(v@ + seq!['%'], domain)
            &&& m == "startswith"@ ==> like(seq!['%'] + v@, domain)
            &&& m == "notempty"@ ==> domain.len() > 0
        },
    }
}

/// The client is one that is asked for: one of the resolved addresses, where
/// there are any, else the client that is named.
pub open spec fn client_asked_for(p: DomainListGetParam, client: Seq<char>) -> bool {
    match p.client_ips {
        Some(ips) => ips@.len() > 0 ==> exists|i: int|
            0 <= i < ips@.len() && (#[trigger] ips@[i])@ == client,
        None => p.client matches Some(v) ==> client == v@,
    }
}

/// The cursor of the request steps back.
pub open spec fn asks_back(p: DomainListGetParam) -> bool {
    p.cursor matches Some(c) && relational::spells(c.direction@, seq!['p', 'r', 'e', 'v'])
}

/// The row that the cursor of the request stands on.
pub open spec fn row_of_cursor(p: DomainListGetParam) -> Option<u64> {
    match p.cursor {
        Some(c) => c.id,
        None => None,
    }
}

proof fn lemma_asked_ways(p: DomainListGetParam)
    ensures
        relational::asks_ascending(p.order) == sql::is_asc(p.order),
        asks_back(p) == domain_list::steps_back(p),
        row_of_cursor(p) == domain_list::cursor_id(p),
{
    if p.order is Some {
        relational::lemma_words(p.order->0@);
    }
    if p.cursor is Some {
        relational::lemma_words(p.cursor->0.direction@);
    }
}

/// The time and the id of a row are within the bounds of the request. A cursor
/// on a row takes the place of the time bound that lies ahead of it; without
/// such a bound the rows on its far side are asked for.
pub open spec fn within_bounds(p: DomainListGetParam, d: DomainData) -> bool {
    let asc = relational::asks_ascending(p.order);
    let back = asks_back(p);
    match row_of_cursor(p) {
        None => {
            &&& p.timestamp_before matches Some(t) ==> d.timestamp <= t
            &&& p.timestamp_after matches Some(t) ==> d.timestamp >= t
        },
        Some(at) => {
            let caps = p.timestamp_before is Some && (asc || !back);
            let floors = p.timestamp_after is Some && (asc || back);
            &&& caps ==> d.id < at
            &&& floors ==> d.id > at
            &&& p.timestamp_before matches Some(t) ==> !caps ==> d.timestamp <= t
            &&& p.timestamp_after matches Some(t) ==> !floors ==> d.timestamp >= t
            &&& !caps && !floors ==> if asc == back {
                d.id < at
            } else {
                d.id > at
            }
        },
    }
}

/// The row is one that the request asks for.
pub open spec fn asked_for(
    p: DomainListGetParam,
    mode: Option<Seq<char>>,
    d: DomainData,
    like: spec_fn(Seq<char>, Seq<char>) -> bool,
) -> bool {
    &&& p.id matches Some(v) ==> d.id == v
    &&& domain_asked_for(p, mode, d.domain@, like)
    &&& p.domain_type matches Some(v) ==> d.domain_type == v
    &&& client_asked_for(p, d.client@)
    &&& p.domain_group matches Some(v) ==> d.domain_group@ == v@
    &&& p.reply_code matches Some(v) ==> d.reply_code == v
    &&& within_bounds(p, d)
    &&& p.is_blocked matches Some(b) ==> d.is_blocked == b
    &&& p.is_cached matches Some(b) ==> d.is_cached == b
}

pub proof fn lemma_log_columns(d: DomainData)
    ensures
        log_column(d)("id"@) == Cell::Number(d.id as int),
        log_column(d)("timestamp"@) == Cell::Number(d.timestamp as int),
        log_column(d)("domain"@) == Cell::Text(d.domain@),
        log_column(d)("domain_type"@) == Cell::Number(d.domain_type as int),
        log_column(d)("client"@) == Cell::Text(d.client@),
        log_column(d)("domain_group"@) == Cell::Text(d.domain_group@),
        log_column(d)("reply_code"@) == Cell::Number(d.reply_code as int),
        log_column(d)("query_time"@) == Cell::Number(d.query_time as int),
        log_column(d)("ping_time"@) == Cell::Real(d.ping_time),
        log_column(d)("is_blocked"@) == flag_cell(d.is_blocked),
        log_column(d)("is_cached"@) == flag_cell(d.is_cached),
{
    reveal_strlit("id");
    reveal_strlit("timestamp");
    reveal_strlit("domain");
    reveal_strlit("domain_type");
    reveal_strlit("client");
    reveal_strlit("domain_group");
    reveal_strlit("reply_code");
    reveal_strlit("query_time");
    reveal_strlit("ping_time");
    reveal_strlit("is_blocked");
    reveal_strlit("is_cached");
    assert("client"@[0] != "domain"@[0]);
    assert("id"@.len() == 2 && "timestamp"@.len() == 9 && "domain"@.len() == 6);
    assert("domain_type"@.len() == 11 && "client"@.len() == 6 && "domain_group"@.len() == 12);
    assert("reply_code"@.len() == 10 && "is_blocked"@.len() == 10 && "is_cached"@.len() == 9);
    assert("query_time"@.len() == 10 && "ping_time"@.len() == 9);
    assert("is_blocked"@[0] != "reply_code"@[0]);
    assert("is_blocked"@[0] != "query_time"@[0]);
    assert("query_time"@[0] != "reply_code"@[0]);
    assert("is_cached"@[0] != "timestamp"@[0]);
    assert("is_cached"@[0] != "ping_time"@[0]);
    assert("ping_time"@[0] != "timestamp"@[0]);
}

proof fn lemma_id_part(
    p: DomainListGetParam,
    d: DomainData,
    like: spec_fn(Seq<char>, Seq<char>) -> bool,
)
    ensures
        relational::meets_all(domain_list::id_cond(p), log_column(d), like) <==> (p.id matches Some(
            v,
        ) ==> d.id == v),
{
    lemma_log_columns(d);
    if p.id is Some {
        let arg = text::decimal(p.id->0 as nat);
        reveal_strlit("id");
        reveal_strlit(" = ?");
        reveal_strlit("id = ?");
        assert("id = ?"@ =~= "id"@ + " = ?"@);
        relational::lemma_one_arg("id = ?"@, "id"@, Test::Equal, arg, log_column(d), like);
        relational::law_decimal_stands_for_its_number(p.id->0 as nat);
    }
}

proof fn lemma_domain_part(
    p: DomainListGetParam,
    mode: Option<Seq<char>>,
    d: DomainData,
    like: spec_fn(Seq<char>, Seq<char>) -> bool,
)
    requires
        p.domain is Some && mode is Some ==> domain_list::mode_known(mode->0),
    ensures
        relational::meets_all(domain_list::domain_cond(p, mode), log_column(d), like)
            <==> domain_asked_for(p, mode, d.domain@, like),
{
    lemma_log_columns(d);
    if p.domain is Some {
        let v = p.domain->0@;
        let row = log_column(d);
        reveal_strlit("domain");
        reveal_strlit("%");
        reveal_strlit("domain = ?");
        reveal_strlit(" = ?");
        reveal_strlit("domain LIKE ?");
        reveal_strlit(" LIKE ?");
        reveal_strlit("domain IS NOT NULL AND domain <> ''");
        reveal_strlit(" IS NOT NULL AND ");
        reveal_strlit(" <> ''");
        assert("%"@ =~= seq!['%']);
        assert("domain = ?"@ =~= "domain"@ + " = ?"@);
        assert("domain LIKE ?"@ =~= "domain"@ + " LIKE ?"@);
        assert("domain IS NOT NULL AND domain <> ''"@ =~= "domain"@ + " IS NOT NULL AND "@
            + "domain"@ + " <> ''"@);
        relational::lemma_one_arg("domain = ?"@, "domain"@, Test::Equal, v, row, like);
        relational::lemma_one_arg("domain LIKE ?"@, "domain"@, Test::Like, v + "%"@, row, like);
        relational::lemma_one_arg("domain LIKE ?"@, "domain"@, Test::Like, "%"@ + v, row, like);
        relational::lemma_one_arg("domain LIKE ?"@, "domain"@, Test::Like, "%"@ + v + "%"@, row, like);
        relational::lemma_no_arg(
            "domain IS NOT NULL AND domain <> ''"@,
            "domain"@,
            Test::NotEmpty,
            row,
            like,
        );
        lemma_modes_differ();
    }
}

/// The modes are told apart.
proof fn lemma_modes_differ()
    ensures
        "endswith"@ != "startswith"@,
        "endswith"@ != "contains"@,
        "endswith"@ != "equals"@,
        "endswith"@ != "notempty"@,
        "startswith"@ != "contains"@,
        "startswith"@ != "equals"@,
        "startswith"@ != "notempty"@,
        "contains"@ != "equals"@,
        "contains"@ != "notempty"@,
        "equals"@ != "notempty"@,
{
    reveal_strlit("endswith");
    reveal_strlit("startswith");
    reveal_strlit("contains");
    reveal_strlit("equals");
    reveal_strlit("notempty");
    assert("equals"@.len() == 6);
    assert("startswith"@.len() == 10);
    assert("endswith"@.len() == 8);
    assert("endswith"@[0] != "contains"@[0]);
    assert("endswith"@[0] != "notempty"@[0]);
    assert("contains"@[0] != "notempty"@[0]);
}

proof fn lemma_type_part(
    p: DomainListGetParam,
    d: DomainData,
    like: spec_fn(Seq<char>, Seq<char>) -> bool,
)
    ensures
        relational::meets_all(domain_list::type_cond(p), log_column(d), like) <==> (
        p.domain_type matches Some(v) ==> d.domain_type == v),
{
    lemma_log_columns(d);
    if p.domain_type is Some {
        let arg = text::decimal(p.domain_type->0 as nat);
        reveal_strlit("domain_type");
        reveal_strlit(" = ?");
        reveal_strlit("domain_type = ?");
        assert("domain_type = ?"@ =~= "domain_type"@ + " = ?"@);
        relational::lemma_one_arg("domain_type = ?"@, "domain_type"@, Test::Equal, arg, log_column(d), like);
        relational::law_decimal_stands_for_its_number(p.domain_type->0 as nat);
    }
}

proof fn lemma_marks_text(n: nat)
    ensures
        text::join(domain_list::marks(n), ","@) == relational::question_marks(n),
    decreases n,
{
    reveal_strlit("?");
    reveal_strlit(",");
    reveal_strlit(",?");
    if n > 1 {
        lemma_marks_text((n - 1) as nat);
        assert(domain_list::marks(n).drop_last() =~= domain_list::marks((n - 1) as nat));
        let head = relational::question_marks((n - 1) as nat);
        assert(head + ","@ + "?"@ =~= head + ",?"@);
    } else if n == 1 {
        assert(domain_list::marks(1)[0] == "?"@);
        assert(text::join(domain_list::marks(1), ","@) =~= "?"@);
    } else {
        assert(text::join(domain_list::marks(0), ","@) =~= relational::question_marks(0));
    }
}

proof fn lemma_client_part(
    p: DomainListGetParam,
    d: DomainData,
    like: spec_fn(Seq<char>, Seq<char>) -> bool,
)
    ensures
        relational::meets_all(domain_list::client_cond(p), log_column(d), like)
            <==> client_asked_for(p, d.client@),
{
    lemma_log_columns(d);
    let row = log_column(d);
    reveal_strlit("client");
    reveal_strlit(" = ?");
    reveal_strlit("client = ?");
    reveal_strlit(" IN (");
    reveal_strlit("client IN (");
    assert("client = ?"@ =~= "client"@ + " = ?"@);
    assert("client IN ("@ =~= "client"@ + " IN ("@);
    if p.client_ips is Some {
        let ips = p.client_ips->0;
        if ips@.len() > 0 {
            let args = text::texts(ips@);
            let c = domain_list::client_cond(p)[0];
            lemma_marks_text(ips@.len());
            assert(c.args == args);
            relational::lemma_meets_test(c, "client"@, Test::OneOf, row, like);
            if client_asked_for(p, d.client@) {
                let i = choose|i: int| 0 <= i < ips@.len() && (#[trigger] ips@[i])@ == d.client@;
                assert(relational::is_value(row("client"@), args[i]));
            }
            if relational::passes(Test::OneOf, row("client"@), args, like) {
                let i = choose|i: int|
                    0 <= i < args.len() && relational::is_value(
                        row("client"@),
                        #[trigger] args[i],
                    );
                assert(ips@[i]@ == d.client@);
            }
        }
    } else if p.client is Some {
        relational::lemma_one_arg("client = ?"@, "client"@, Test::Equal, p.client->0@, row, like);
    }
}

proof fn lemma_group_part(
    p: DomainListGetParam,
    d: DomainData,
    like: spec_fn(Seq<char>, Seq<char>) -> bool,
)
    ensures
        relational::meets_all(domain_list::group_cond(p), log_column(d), like) <==> (
        p.domain_group matches Some(v) ==> d.domain_group@ == v@),
{
    lemma_log_columns(d);
    if p.domain_group is Some {
        reveal_strlit("domain_group");
        reveal_strlit(" = ?");
        reveal_strlit("domain_group = ?");
        assert("domain_group = ?"@ =~= "domain_group"@ + " = ?"@);
        relational::lemma_one_arg(
            "domain_group = ?"@,
            "domain_group"@,
            Test::Equal,
            p.domain_group->0@,
            log_column(d),
            like,
        );
    }
}

proof fn lemma_reply_part(
    p: DomainListGetParam,
    d: DomainData,
    like: spec_fn(Seq<char>, Seq<char>) -> bool,
)
    ensures
        relational::meets_all(domain_list::reply_cond(p), log_column(d), like) <==> (
        p.reply_code matches Some(v) ==> d.reply_code == v),
{
    lemma_log_columns(d);
    if p.reply_code is Some {
        let arg = text::decimal(p.reply_code->0 as nat);
        reveal_strlit("reply_code");
        reveal_strlit(" = ?");
        reveal_strlit("reply_code = ?");
        assert("reply_code = ?"@ =~= "reply_code"@ + " = ?"@);
        relational::lemma_one_arg("reply_code = ?"@, "reply_code"@, Test::Equal, arg, log_column(d), like);
        relational::law_decimal_stands_for_its_number(p.reply_code->0 as nat);
    }
}

/// What the conditions on times and ids test, for any number.
proof fn lemma_bound_tests(d: DomainData, n: u64, like: spec_fn(Seq<char>, Seq<char>) -> bool)
    ensures
        ({
            let arg = text::decimal(n as nat);
            let row = log_column(d);
            &&& relational::meets_all(sql::one_arg("id < ?"@, arg), row, like) <==> d.id < n
            &&& relational::meets_all(sql::one_arg("id > ?"@, arg), row, like) <==> d.id > n
            &&& relational::meets_all(sql::one_arg("timestamp <= ?"@, arg), row, like)
                <==> d.timestamp <= n
            &&& relational::meets_all(sql::one_arg("timestamp >= ?"@, arg), row, like)
                <==> d.timestamp >= n
        }),
{
    let arg = text::decimal(n as nat);
    let row = log_column(d);
    lemma_log_columns(d);
    relational::law_decimal_stands_for_its_number(n as nat);
    reveal_strlit("id");
    reveal_strlit("timestamp");
    reveal_strlit(" < ?");
    reveal_strlit(" > ?");
    reveal_strlit(" <= ?");
    reveal_strlit(" >= ?");
    reveal_strlit("id < ?");
    reveal_strlit("id > ?");
    reveal_strlit("timestamp <= ?");
    reveal_strlit("timestamp >= ?");
    assert("id < ?"@ =~= "id"@ + " < ?"@);
    assert("id > ?"@ =~= "id"@ + " > ?"@);
    assert("timestamp <= ?"@ =~= "timestamp"@ + " <= ?"@);
    assert("timestamp >= ?"@ =~= "timestamp"@ + " >= ?"@);
    relational::lemma_one_arg("id < ?"@, "id"@, Test::Below, arg, row, like);
    relational::lemma_one_arg("id > ?"@, "id"@, Test::Above, arg, row, like);
    relational::lemma_one_arg("timestamp <= ?"@, "timestamp"@, Test::AtMost, arg, row, like);
    relational::lemma_one_arg("timestamp >= ?"@, "timestamp"@, Test::AtLeast, arg, row, like);
}

proof fn lemma_bound_parts(
    p: DomainListGetParam,
    d: DomainData,
    like: spec_fn(Seq<char>, Seq<char>) -> bool,
)
    ensures
        relational::meets_all(domain_list::before_cond(p), log_column(d), like)
            && relational::meets_all(domain_list::after_cond(p), log_column(d), like)
            && relational::meets_all(domain_list::cursor_cond(p), log_column(d), like)
            <==> within_bounds(p, d),
{
    lemma_asked_ways(p);
    if p.timestamp_before is Some {
        lemma_bound_tests(d, p.timestamp_before->0, like);
    }
    if p.timestamp_after is Some {
        lemma_bound_tests(d, p.timestamp_after->0, like);
    }
    if domain_list::cursor_id(p) is Some {
        lemma_bound_tests(d, domain_list::cursor_id(p)->0, like);
    }
}

proof fn lemma_flag_parts(
    p: DomainListGetParam,
    d: DomainData,
    like: spec_fn(Seq<char>, Seq<char>) -> bool,
)
    ensures
        relational::meets_all(domain_list::blocked_cond(p), log_column(d), like) <==> (
        p.is_blocked matches Some(b) ==> d.is_blocked == b),
        relational::meets_all(domain_list::cached_cond(p), log_column(d), like) <==> (
        p.is_cached matches Some(b) ==> d.is_cached == b),
{
    let row = log_column(d);
    lemma_log_columns(d);
    reveal_strlit("is_blocked");
    reveal_strlit("is_cached");
    reveal_strlit(" = 1");
    reveal_strlit(" = 0");
    reveal_strlit("is_blocked = 1");
    reveal_strlit("is_blocked = 0");
    reveal_strlit("is_cached = 1");
    reveal_strlit("is_cached = 0");
    assert("is_blocked = 1"@ =~= "is_blocked"@ + " = 1"@);
    assert("is_blocked = 0"@ =~= "is_blocked"@ + " = 0"@);
    assert("is_cached = 1"@ =~= "is_cached"@ + " = 1"@);
    assert("is_cached = 0"@ =~= "is_cached"@ + " = 0"@);
    relational::lemma_no_arg("is_blocked = 1"@, "is_blocked"@, Test::IsOne, row, like);
    relational::lemma_no_arg("is_blocked = 0"@, "is_blocked"@, Test::IsZero, row, like);
    relational::lemma_no_arg("is_cached = 1"@, "is_cached"@, Test::IsOne, row, like);
    relational::lemma_no_arg("is_cached = 0"@, "is_cached"@, Test::IsZero, row, like);
}

proof fn lemma_conds_select(
    p: DomainListGetParam,
    mode: Option<Seq<char>>,
    d: DomainData,
    like: spec_fn(Seq<char>, Seq<char>) -> bool,
)
    requires
        p.domain is Some && mode is Some ==> domain_list::mode_known(mode->0),
    ensures
        relational::meets_all(domain_list::domain_conds(p, mode), log_column(d), like)
            <==> asked_for(p, mode, d, like),
{
    let parts = domain_list::domain_parts(p, mode);
    let row = log_column(d);
    relational::lemma_meets_joined(parts, row, like);
    lemma_id_part(p, d, like);
    lemma_domain_part(p, mode, d, like);
    lemma_type_part(p, d, like);
    lemma_client_part(p, d, like);
    lemma_group_part(p, d, like);
    lemma_reply_part(p, d, like);
    lemma_bound_parts(p, d, like);
    lemma_flag_parts(p, d, like);
    if relational::meets_all(domain_list::domain_conds(p, mode), row, like) {
        assert(relational::meets_all(parts[0], row, like));
        assert(relational::meets_all(parts[1], row, like));
        assert(relational::meets_all(parts[2], row, like));
        assert(relational::meets_all(parts[3], row, like));
        assert(relational::meets_all(parts[4], row, like));
        assert(relational::meets_all(parts[5], row, like));
        assert(relational::meets_all(parts[6], row, like));
        assert(relational::meets_all(parts[7], row, like));
        assert(relational::meets_all(parts[8], row, like));
        assert(relational::meets_all(parts[9], row, like));
        assert(relational::meets_all(parts[10], row, like));
    }
}

/// The `WHERE` clause of a request selects exactly the rows that are asked for:
/// it demands conditions that a row of the log meets just where every filter of
/// the request fits the row, whatever it is for a text to be like a pattern.
pub proof fn law_domain_clause_selects_what_is_asked_for(
    p: DomainListGetParam,
    mode: Option<Seq<char>>,
    like: spec_fn(Seq<char>, Seq<char>) -> bool,
)
    requires
        domain_list::domain_clauses(Some(&p), mode) is Ok,
    ensures
        ({
            let c = domain_list::domain_clauses(Some(&p), mode)->Ok_0;
            exists|conds: Seq<sql::Cond>| #[trigger]
                relational::demands(c.where_text, c.args, conds) && forall|d: DomainData|
                    #[trigger]
                    relational::meets_all(conds, log_column(d), like) <==> asked_for(
                        p,
                        mode,
                        d,
                        like,
                    )
        }),
{
    let c = domain_list::domain_clauses(Some(&p), mode)->Ok_0;
    let conds = domain_list::domain_conds(p, mode);
    relational::law_where_clause_demands_every_condition(conds);
    assert(relational::demands(c.where_text, c.args, conds));
    assert forall|d: DomainData| #[trigger]
        relational::meets_all(conds, log_column(d), like) <==> asked_for(p, mode, d, like) by {
        lemma_conds_select(p, mode, d, like);
    }
}

/// The request as it came selects exactly the rows that are asked for, its mode
/// read in any case.
pub proof fn law_request_selects_what_is_asked_for(
    p: DomainListGetParam,
    like: spec_fn(Seq<char>, Seq<char>) -> bool,
)
    requires
        domain_list::domain_request(Some(&p)) is Ok,
    ensures
        ({
            let c = domain_list::domain_request(Some(&p))->Ok_0;
            let mode = match p.domain_filter_mode {
                Some(m) => Some(text::unicode_lowercase(m@)),
                None => None,
            };
            exists|conds: Seq<sql::Cond>| #[trigger]
                relational::demands(c.where_text, c.args, conds) && forall|d: DomainData|
                    #[trigger]
                    relational::meets_all(conds, log_column(d), like) <==> asked_for(
                        p,
                        mode,
                        d,
                        like,
                    )
        }),
{
    law_domain_clause_selects_what_is_asked_for(p, domain_list::lowered_mode(p), like);
}

/// No row is listed both for blocked queries and for those that were not, nor
/// both for cached answers and for those that were not.
pub proof fn law_flags_part_the_log(
    p: DomainListGetParam,
    q: DomainListGetParam,
    mode: Option<Seq<char>>,
    d: DomainData,
    like: spec_fn(Seq<char>, Seq<char>) -> bool,
)
    requires
        domain_list::domain_clauses(Some(&p), mode) is Ok,
        domain_list::domain_clauses(Some(&q), mode) is Ok,
        relational::meets_all(domain_list::domain_conds(p, mode), log_column(d), like),
        relational::meets_all(domain_list::domain_conds(q, mode), log_column(d), like),
    ensures
        p.is_blocked is Some && q.is_blocked is Some ==> p.is_blocked == q.is_blocked,
        p.is_cached is Some && q.is_cached is Some ==> p.is_cached == q.is_cached,
{
    lemma_conds_select(p, mode, d, like);
    lemma_conds_select(q, mode, d, like);
}

/// A mode that tells how the domain is looked for.
pub open spec fn is_mode(m: Seq<char>) -> bool {
    ||| m == seq!['e', 'q', 'u', 'a', 'l', 's']
    ||| m == seq!['c', 'o', 'n', 't', 'a', 'i', 'n', 's']
    ||| m == seq!['e', 'n', 'd', 's', 'w', 'i', 't', 'h']
    ||| m == seq!['s', 't', 'a', 'r', 't', 's', 'w', 'i', 't', 'h']
    ||| m == seq!['n', 'o', 't', 'e', 'm', 'p', 't', 'y']
}

/// A request is refused exactly for a word that means nothing: for its order
/// before all, then for the direction of its cursor, and for a mode only where
/// a domain is looked for.
pub proof fn law_request_is_refused_for_its_words(p: DomainListGetParam)
    ensures
        ({
            let order_means_something = p.order matches Some(o) ==> relational::spells(
                o@,
                seq!['a', 's', 'c'],
            ) || relational::spells(o@, seq!['d', 'e', 's', 'c']);
            let direction_means_something = p.cursor matches Some(c) ==> relational::spells(
                c.direction@,
                seq!['p', 'r', 'e', 'v'],
            ) || relational::spells(c.direction@, seq!['n', 'e', 'x', 't']);
            let mode_means_something = p.domain is Some ==> (p.domain_filter_mode matches Some(m)
                ==> is_mode(text::unicode_lowercase(m@)));
            let r = domain_list::domain_request(Some(&p));
            &&& r == Err::<sql::Clauses, DbError>(DbError::OrderParam) <==> !order_means_something
            &&& r == Err::<sql::Clauses, DbError>(DbError::CursorDirectionParam) <==> (
            order_means_something && !direction_means_something)
            &&& r == Err::<sql::Clauses, DbError>(DbError::DomainFilterModeParam) <==> (
            order_means_something && direction_means_something && !mode_means_something)
            &&& r is Ok <==> order_means_something && direction_means_something
                && mode_means_something
        }),
{
    if p.order is Some {
        relational::lemma_words(p.order->0@);
    }
    if p.cursor is Some {
        relational::lemma_words(p.cursor->0.direction@);
    }
    reveal_strlit("equals");
    reveal_strlit("contains");
    reveal_strlit("endswith");
    reveal_strlit("startswith");
    reveal_strlit("notempty");
    assert("equals"@ =~= seq!['e', 'q', 'u', 'a', 'l', 's']);
    assert("contains"@ =~= seq!['c', 'o', 'n', 't', 'a', 'i', 'n', 's']);
    assert("endswith"@ =~= seq!['e', 'n', 'd', 's', 'w', 'i', 't', 'h']);
    assert("startswith"@ =~= seq!['s', 't', 'a', 'r', 't', 's', 'w', 'i', 't', 'h']);
    assert("notempty"@ =~= seq!['n', 'o', 't', 'e', 'm', 'p', 't', 'y']);
}

/// A new request asks for the ten newest rows of the log, whatever they are.
pub proof fn law_new_request_asks_for_the_newest_rows(
    d: DomainData,
    like: spec_fn(Seq<char>, Seq<char>) -> bool,
)
    ensures
        ({
            let p = model::first_domains();
            &&& asked_for(p, None, d, like)
            &&& domain_list::domain_request(Some(&p)) is Ok
            &&& !relational::asks_ascending(p.order) && !asks_back(p)
            &&& p.page_num == 1 && p.page_size == 10
            &&& p.cursor is None
        }),
{
}

/// The request looks at nothing but times, and at the domain in some mode.
pub open spec fn looks_at_times_only(p: DomainListGetParam, mode: Option<Seq<char>>) -> bool {
    &&& p.domain is Some ==> mode is Some
    &&& match p.client_ips {
        Some(ips) => ips@.len() == 0,
        None => p.client is None,
    }
    &&& row_of_cursor(p) is None
    &&& p.id is None && p.domain_type is None && p.domain_group is None && p.reply_code is None
        && p.is_blocked is None && p.is_cached is None
}

/// Rows are read newest first unless the request asks for the oldest first, and
/// the other way round where its cursor steps back; by time where the request
/// looks at nothing but times, else by id.
pub proof fn law_rows_of_the_log_are_read_in_order(p: DomainListGetParam, mode: Option<Seq<char>>)
    requires
        domain_list::domain_clauses(Some(&p), mode) is Ok,
    ensures
        ({
            let falling = relational::asks_ascending(p.order) == asks_back(p);
            domain_list::domain_clauses(Some(&p), mode)->Ok_0.order_text
                == if looks_at_times_only(p, mode) {
                relational::order_by("timestamp"@, "id"@, falling)
            } else {
                relational::order_by("id"@, "timestamp"@, falling)
            }
        }),
{
    lemma_asked_ways(p);
    reveal_strlit(" DESC");
    reveal_strlit(" ASC");
    reveal_strlit(" ORDER BY ");
    reveal_strlit(", ");
    reveal_strlit("timestamp");
    reveal_strlit("id");
    let c = domain_list::domain_clauses(Some(&p), mode)->Ok_0;
    let falling = domain_list::descending(p);
    assert(c.order_text =~= if looks_at_times_only(p, mode) {
        relational::order_by("timestamp"@, "id"@, falling)
    } else {
        relational::order_by("id"@, "timestamp"@, falling)
    }) by {
        if falling {
            reveal_strlit(" ORDER BY timestamp DESC, id DESC");
            reveal_strlit(" ORDER BY id DESC, timestamp DESC");
        } else {
            reveal_strlit(" ORDER BY timestamp ASC, id ASC");
            reveal_strlit(" ORDER BY id ASC, timestamp ASC");
        }
    }
}

} // verus!
