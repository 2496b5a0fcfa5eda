//! Which clients a request selects, and which column each value of a client is
//! written to and read from.

use vstd::prelude::*;

use crate::client_list;
use crate::clients;
use crate::error::DbError;
use crate::model;
use crate::model::{ClientData, ClientListGetParam};
use crate::relational;
use crate::relational::{Cell, Renewal, Test};
use crate::sql;
use crate::text;

verus! {

/// The columns of a client, by their names.
pub open spec fn client_column(c: ClientData) -> spec_fn(Seq<char>) -> Cell {
    |name: Seq<char>|
        if name == "id"@ {
            Cell::Number(c.id as int)
        } else if name == "client_ip"@ {
            Cell::Text(c.client_ip@)
        } else if name == "mac"@ {
            Cell::Text(c.mac@)
        } else if name == "hostname"@ {
            Cell::Text(c.hostname@)
        } else if name == "last_query_timestamp"@ {
            Cell::Number(c.last_query_timestamp as int)
        } else {
            Cell::Text(Seq::empty())
        }
}

proof fn lemma_client_columns(c: ClientData)
    ensures
        client_column(c)("id"@) == Cell::Number(c.id as int),
        client_column(c)("client_ip"@) == Cell::Text(c.client_ip@),
        client_column(c)("mac"@) == Cell::Text(c.mac@),
        client_column(c)("hostname"@) == Cell::Text(c.hostname@),
        client_column(c)("last_query_timestamp"@) == Cell::Number(c.last_query_timestamp as int),
{
    reveal_strlit("id");
    reveal_strlit("client_ip");
    reveal_strlit("mac");
    reveal_strlit("hostname");
    reveal_strlit("last_query_timestamp");
    assert("id"@.len() == 2 && "client_ip"@.len() == 9 && "mac"@.len() == 3);
    assert("hostname"@.len() == 8 && "last_query_timestamp"@.len() == 20);
}

/// The columns of a client, in the order in which they are written and read.
pub open spec fn columns() -> Seq<Seq<char>> {
    seq!["id"@, "client_ip"@, "mac"@, "hostname"@, "last_query_timestamp"@]
}

/// The columns that values are bound to; the number of a client is found by the
/// statement itself.
pub open spec fn bound_columns() -> Seq<Seq<char>> {
    seq!["client_ip"@, "mac"@, "hostname"@, "last_query_timestamp"@]
}

proof fn lemma_columns_listed()
    ensures
        relational::listed(columns(), 5) == "id, client_ip, mac, hostname, last_query_timestamp"@,
{
    let c = columns();
    assert(relational::listed(c, 3) == "id, client_ip, mac"@) by {
        reveal_with_fuel(relational::listed, 4);
        reveal_strlit("id, client_ip, mac");
        reveal_strlit(", ");
        reveal_strlit("id");
        reveal_strlit("client_ip");
        reveal_strlit("mac");
        assert(relational::listed(c, 3) =~= "id, client_ip, mac"@);
    }
    assert(relational::listed(c, 5) == "id, client_ip, mac, hostname, last_query_timestamp"@) by {
        reveal_with_fuel(relational::listed, 3);
        reveal_strlit("id, client_ip, mac");
        reveal_strlit("id, client_ip, mac, hostname, last_query_timestamp");
        reveal_strlit(", ");
        reveal_strlit("hostname");
        reveal_strlit("last_query_timestamp");
        assert(relational::listed(c, 5) =~= "id, client_ip, mac, hostname, last_query_timestamp"@);
    }
}

proof fn lemma_select_text()
    ensures
        client_list::client_select() == relational::select(columns(), "client"@),
{
    lemma_columns_listed();
    reveal_strlit("SELECT id, client_ip, mac, hostname, last_query_timestamp FROM client");
    reveal_strlit("id, client_ip, mac, hostname, last_query_timestamp");
    reveal_strlit("SELECT ");
    reveal_strlit(" FROM ");
    reveal_strlit("client");
    assert("SELECT id, client_ip, mac, hostname, last_query_timestamp FROM client"@ =~= relational::select(columns(), "client"@));
}

/// What a client that was read by the places of its columns is taken for.
pub open spec fn reads_as(cells: Seq<Cell>, c: ClientData) -> bool {
    cells == seq![
        Cell::Number(c.id as int),
        Cell::Text(c.client_ip@),
        Cell::Text(c.mac@),
        Cell::Text(c.hostname@),
        Cell::Number(c.last_query_timestamp as int),
    ]
}

/// A listed client comes back with the number, address, hardware address, name
/// and time that its row holds.
pub proof fn law_listed_client_is_read_from_its_columns(c: ClientData)
    ensures
        client_list::client_select() == relational::select(columns(), "client"@),
        reads_as(relational::cells(columns(), client_column(c)), c),
{
    lemma_select_text();
    lemma_client_columns(c);
    assert(relational::cells(columns(), client_column(c)) =~= seq![
        Cell::Number(c.id as int),
        Cell::Text(c.client_ip@),
        Cell::Text(c.mac@),
        Cell::Text(c.hostname@),
        Cell::Number(c.last_query_timestamp as int),
    ]);
}

/// How each column of a client that is there is renewed; none where it is kept.
pub open spec fn renewal_of(column: Seq<char>) -> Option<Renewal> {
    if column == "last_query_timestamp"@ {
        Some(Renewal::Always)
    } else if column == "hostname"@ {
        Some(Renewal::WhereEmpty)
    } else {
        None
    }
}

proof fn lemma_renewals_written()
    ensures
        "last_query_timestamp = excluded.last_query_timestamp"@ == relational::written_renewal(
            "last_query_timestamp"@,
            Renewal::Always,
        ),
        "hostname = CASE WHEN hostname = '' THEN excluded.hostname ELSE hostname END"@
            == relational::written_renewal("hostname"@, Renewal::WhereEmpty),
{
    reveal_strlit("last_query_timestamp = excluded.last_query_timestamp");
    reveal_strlit("last_query_timestamp");
    reveal_strlit(" = excluded.");
    reveal_strlit("hostname = CASE WHEN hostname = '' THEN excluded.hostname ELSE hostname END");
    reveal_strlit("hostname");
    reveal_strlit(" = CASE WHEN ");
    reveal_strlit(" = '' THEN excluded.");
    reveal_strlit(" ELSE ");
    reveal_strlit(" END");
    assert("last_query_timestamp = excluded.last_query_timestamp"@ =~= relational::written_renewal(
        "last_query_timestamp"@,
        Renewal::Always,
    ));
    assert("hostname = CASE WHEN hostname = '' THEN excluded.hostname ELSE hostname END"@
        =~= relational::written_renewal("hostname"@, Renewal::WhereEmpty));
}

/// The statement that writes a client names the columns in their order, binds a
/// value to each but the number, and renews the time and an empty name of the
/// client with the same address and hardware address.
pub proof fn law_statement_that_writes_a_client()
    ensures
        clients::insert_client_text() == "INSERT INTO client ("@ + relational::listed(columns(), 5)
            + ") VALUES (
            (SELECT MAX(rowid) FROM client) + 1,
            "@ + relational::numbered(4) + ")
            ON CONFLICT("@ + relational::listed(seq!["client_ip"@, "mac"@], 2) + ") DO UPDATE SET
                "@ + relational::written_renewal("last_query_timestamp"@, Renewal::Always) + ",
                "@ + relational::written_renewal("hostname"@, Renewal::WhereEmpty) + ";
            "@,
{
    lemma_columns_listed();
    lemma_renewals_written();
    let key = seq!["client_ip"@, "mac"@];
    assert(relational::numbered(4) == "?1, ?2, ?3, ?4"@) by {
        reveal_with_fuel(relational::numbered, 5);
        reveal_with_fuel(text::decimal, 2);
        reveal_strlit("?1");
        reveal_strlit(", ?");
        reveal_strlit("?1, ?2, ?3, ?4");
        assert(relational::numbered(4) =~= "?1, ?2, ?3, ?4"@);
    }
    assert(relational::listed(key, 2) == "client_ip, mac"@) by {
        reveal_with_fuel(relational::listed, 3);
        reveal_strlit("client_ip");
        reveal_strlit(", ");
        reveal_strlit("mac");
        reveal_strlit("client_ip, mac");
        assert(relational::listed(key, 2) =~= "client_ip, mac"@);
    }
    let head = "INSERT INTO client ("@ + "id, client_ip, mac, hostname, last_query_timestamp"@ + ") VALUES (
            (SELECT MAX(rowid) FROM client) + 1,
            "@ + "?1, ?2, ?3, ?4"@ + ")
            ON CONFLICT("@;
    let tail = "client_ip, mac"@ + ") DO UPDATE SET
                "@ + "last_query_timestamp = excluded.last_query_timestamp"@ + ",
                "@ + "hostname = CASE WHEN hostname = '' THEN excluded.hostname ELSE hostname END"@ + ";
            "@;
    let all = clients::insert_client_text();
    let n = head.len() as int;
    assert(all.len() == n + tail.len() && all.take(n) =~= head) by {
        reveal_strlit("INSERT INTO client (id, client_ip, mac, hostname, last_query_timestamp) VALUES (
            (SELECT MAX(rowid) FROM client) + 1,
            ?1, ?2, ?3, ?4)
            ON CONFLICT(client_ip, mac) DO UPDATE SET
                last_query_timestamp = excluded.last_query_timestamp,
                hostname = CASE WHEN hostname = '' THEN excluded.hostname ELSE hostname END;
            ");
        reveal_strlit("INSERT INTO client (");
        reveal_strlit("id, client_ip, mac, hostname, last_query_timestamp");
        reveal_strlit(") VALUES (
            (SELECT MAX(rowid) FROM client) + 1,
            ");
        reveal_strlit("?1, ?2, ?3, ?4");
        reveal_strlit(")
            ON CONFLICT(");
        reveal_strlit("client_ip, mac");
        reveal_strlit(") DO UPDATE SET
                ");
        reveal_strlit("last_query_timestamp = excluded.last_query_timestamp");
        reveal_strlit(",
                ");
        reveal_strlit("hostname = CASE WHEN hostname = '' THEN excluded.hostname ELSE hostname END");
        reveal_strlit(";
            ");
    }
    assert(all.skip(n) =~= tail) by {
        reveal_strlit("INSERT INTO client (id, client_ip, mac, hostname, last_query_timestamp) VALUES (
            (SELECT MAX(rowid) FROM client) + 1,
            ?1, ?2, ?3, ?4)
            ON CONFLICT(client_ip, mac) DO UPDATE SET
                last_query_timestamp = excluded.last_query_timestamp,
                hostname = CASE WHEN hostname = '' THEN excluded.hostname ELSE hostname END;
            ");
        reveal_strlit("INSERT INTO client (");
        reveal_strlit("id, client_ip, mac, hostname, last_query_timestamp");
        reveal_strlit(") VALUES (
            (SELECT MAX(rowid) FROM client) + 1,
            ");
        reveal_strlit("?1, ?2, ?3, ?4");
        reveal_strlit(")
            ON CONFLICT(");
        reveal_strlit("client_ip, mac");
        reveal_strlit(") DO UPDATE SET
                ");
        reveal_strlit("last_query_timestamp = excluded.last_query_timestamp");
        reveal_strlit(",
                ");
        reveal_strlit("hostname = CASE WHEN hostname = '' THEN excluded.hostname ELSE hostname END");
        reveal_strlit(";
            ");
    }
    assert(all =~= all.take(n) + all.skip(n));
    assert(head + tail =~= "INSERT INTO client ("@ + "id, client_ip, mac, hostname, last_query_timestamp"@ + ") VALUES (
            (SELECT MAX(rowid) FROM client) + 1,
            "@ + "?1, ?2, ?3, ?4"@ + ")
            ON CONFLICT("@ + "client_ip, mac"@ + ") DO UPDATE SET
                "@ + "last_query_timestamp = excluded.last_query_timestamp"@ + ",
                "@ + "hostname = CASE WHEN hostname = '' THEN excluded.hostname ELSE hostname END"@ + ";
            "@);
}

/// Each value that is bound to the statement that writes a client stands at the
/// place of its column.
pub proof fn law_values_of_a_client_stand_at_their_columns(c: ClientData)
    ensures
        bound_columns() == columns().skip(1),
        relational::placed(bound_columns(), clients::client_values(c), client_column(c)),
{
    lemma_client_columns(c);
    let columns = bound_columns();
    let values = clients::client_values(c);
    let row = client_column(c);
    assert(columns =~= self::columns().skip(1));
    assert forall|i: int| 0 <= i < columns.len() implies relational::is_cell(
        #[trigger] values[i],
        row(columns[i]),
    ) by {
        if i == 0 {
        } else if i == 1 {
        } else if i == 2 {
        } else {
            assert(i == 3);
        }
    }
}

/// The columns of a row of the table of clients.
pub open spec fn table_column(
    key: (Seq<char>, Seq<char>),
    r: clients::ClientRow,
) -> spec_fn(Seq<char>) -> Cell {
    |name: Seq<char>|
        if name == "id"@ {
            Cell::Number(r.id)
        } else if name == "client_ip"@ {
            Cell::Text(key.0)
        } else if name == "mac"@ {
            Cell::Text(key.1)
        } else if name == "hostname"@ {
            Cell::Text(r.hostname)
        } else {
            Cell::Number(r.last_query_timestamp as int)
        }
}

/// What writing a client makes of the table: a row that is there is renewed
/// column by column as the statement says, and kept in its other columns; a
/// client that is not there gets a row with the values that were bound, and a
/// number of its own. No other row changes.
pub proof fn law_written_client_is_in_the_table(
    table: Map<(Seq<char>, Seq<char>), clients::ClientRow>,
    c: ClientData,
    column: Seq<char>,
)
    requires
        columns().contains(column),
    ensures
        ({
            let key = (c.client_ip@, c.mac@);
            let after = clients::client_written(table, c);
            let new = table_column(key, after[key])(column);
            &&& after.dom() == table.dom().insert(key)
            &&& forall|k: (Seq<char>, Seq<char>)| k != key ==> #[trigger] after[k] == table[k]
            &&& table.contains_key(key) ==> new == match renewal_of(column) {
                Some(r) => relational::renewed(r, table_column(key, table[key])(column), client_column(c)(column)),
                None => table_column(key, table[key])(column),
            }
            &&& !table.contains_key(key) && column != "id"@ ==> new == client_column(c)(column)
        }),
{
    lemma_client_columns(c);
    reveal_strlit("id");
    reveal_strlit("client_ip");
    reveal_strlit("mac");
    reveal_strlit("hostname");
    reveal_strlit("last_query_timestamp");
    assert("id"@.len() == 2 && "client_ip"@.len() == 9 && "mac"@.len() == 3);
    assert("hostname"@.len() == 8 && "last_query_timestamp"@.len() == 20);
    let key = (c.client_ip@, c.mac@);
    let after = clients::client_written(table, c);
    assert(after.dom() =~= table.dom().insert(key));
    let i = choose|i: int| 0 <= i < columns().len() && columns()[i] == column;
    assert(column == "id"@ || column == "client_ip"@ || column == "mac"@ || column == "hostname"@
        || column == "last_query_timestamp"@);
    if table.contains_key(key) {
        assert(table[key].hostname.len() == 0 <==> table[key].hostname =~= Seq::empty());
    }
}

proof fn lemma_largest_number(
    table: Map<(Seq<char>, Seq<char>), clients::ClientRow>,
    keys: Set<(Seq<char>, Seq<char>)>,
) -> (key: (Seq<char>, Seq<char>))
    requires
        keys.finite(),
        keys.len() > 0,
    ensures
        keys.contains(key),
        forall|k: (Seq<char>, Seq<char>)| #[trigger] keys.contains(k) ==> table[k].id <= table[key].id,
    decreases keys.len(),
{
    let one = keys.choose();
    let rest = keys.remove(one);
    if rest.len() == 0 {
        assert forall|k: (Seq<char>, Seq<char>)| #[trigger] keys.contains(k) implies table[k].id
            <= table[one].id by {
            if k != one {
                assert(rest.contains(k));
            }
        }
        one
    } else {
        let best = lemma_largest_number(table, rest);
        let key = if table[best].id < table[one].id {
            one
        } else {
            best
        };
        assert forall|k: (Seq<char>, Seq<char>)| #[trigger] keys.contains(k) implies table[k].id
            <= table[key].id by {
            if k != one {
                assert(rest.contains(k));
            }
        }
        key
    }
}

/// A client that is new to the table gets the number above the largest one, and
/// the first client gets the number 1; so no two clients have the same number.
pub proof fn law_new_client_gets_the_next_number(
    table: Map<(Seq<char>, Seq<char>), clients::ClientRow>,
    c: ClientData,
)
    requires
        table.dom().finite(),
        !table.contains_key((c.client_ip@, c.mac@)),
    ensures
        ({
            let id = clients::client_written(table, c)[(c.client_ip@, c.mac@)].id;
            &&& forall|k: (Seq<char>, Seq<char>)| #[trigger]
                table.contains_key(k) ==> table[k].id < id
            &&& id == 1 || exists|k: (Seq<char>, Seq<char>)| #[trigger]
                table.contains_key(k) && table[k].id + 1 == id
            &&& table.dom().len() == 0 ==> id == 1
        }),
{
    let keys = table.dom();
    if keys.len() == 0 {
        assert(keys =~= Set::empty());
        assert(clients::is_next_id(table, 1));
    } else {
        let key = lemma_largest_number(table, keys);
        assert(keys.contains(key));
        assert(table.contains_key(key) && table[key].id == table[key].id + 1 - 1);
        assert(clients::is_next_id(table, table[key].id + 1));
    }
}

/// The client is one that the request asks for.
pub open spec fn asked_for(p: ClientListGetParam, c: ClientData) -> bool {
    &&& p.id matches Some(v) ==> c.id == v
    &&& p.client_ip matches Some(v) ==> c.client_ip@ == v@
    &&& p.mac matches Some(v) ==> c.mac@ == v@
    &&& p.hostname matches Some(v) ==> c.hostname@ == v@
    &&& p.timestamp_before matches Some(t) ==> c.last_query_timestamp <= t
    &&& p.timestamp_after matches Some(t) ==> c.last_query_timestamp >= t
}

proof fn lemma_tests_of_texts(
    c: ClientData,
    v: Seq<char>,
    like: spec_fn(Seq<char>, Seq<char>) -> bool,
)
    ensures
        ({
            let row = client_column(c);
            &&& relational::meets_all(sql::one_arg("client_ip = ?"@, v), row, like) <==> c.client_ip@
                == v
            &&& relational::meets_all(sql::one_arg("mac = ?"@, v), row, like) <==> c.mac@ == v
            &&& relational::meets_all(sql::one_arg("hostname = ?"@, v), row, like) <==> c.hostname@
                == v
        }),
{
    let row = client_column(c);
    lemma_client_columns(c);
    reveal_strlit(" = ?");
    reveal_strlit("client_ip");
    reveal_strlit("client_ip = ?");
    reveal_strlit("mac");
    reveal_strlit("mac = ?");
    reveal_strlit("hostname");
    reveal_strlit("hostname = ?");
    assert("client_ip = ?"@ =~= "client_ip"@ + " = ?"@);
    assert("mac = ?"@ =~= "mac"@ + " = ?"@);
    assert("hostname = ?"@ =~= "hostname"@ + " = ?"@);
    relational::lemma_one_arg("client_ip = ?"@, "client_ip"@, Test::Equal, v, row, like);
    relational::lemma_one_arg("mac = ?"@, "mac"@, Test::Equal, v, row, like);
    relational::lemma_one_arg("hostname = ?"@, "hostname"@, Test::Equal, v, row, like);
}

/// What the conditions on numbers test, for any number.
proof fn lemma_tests_of_numbers(
    c: ClientData,
    arg: Seq<char>,
    like: spec_fn(Seq<char>, Seq<char>) -> bool,
)
    ensures
        ({
            let row = client_column(c);
            let n = relational::number_value(arg);
            &&& relational::meets_all(sql::one_arg("id = ?"@, arg), row, like) <==> c.id == n
            &&& relational::meets_all(sql::one_arg("id >= ?"@, arg), row, like) <==> c.id >= n
            &&& relational::meets_all(sql::one_arg("id <= ?"@, arg), row, like) <==> c.id <= n
            &&& relational::meets_all(sql::one_arg("last_query_timestamp <= ?"@, arg), row, like)
                <==> c.last_query_timestamp <= n
            &&& relational::meets_all(sql::one_arg("last_query_timestamp >= ?"@, arg), row, like)
                <==> c.last_query_timestamp >= n
        }),
{
    let row = client_column(c);
    lemma_client_columns(c);
    reveal_strlit(" = ?");
    reveal_strlit(" <= ?");
    reveal_strlit(" >= ?");
    reveal_strlit("id");
    reveal_strlit("id = ?");
    reveal_strlit("id >= ?");
    reveal_strlit("id <= ?");
    reveal_strlit("last_query_timestamp");
    reveal_strlit("last_query_timestamp <= ?");
    reveal_strlit("last_query_timestamp >= ?");
    assert("id = ?"@ =~= "id"@ + " = ?"@);
    assert("id >= ?"@ =~= "id"@ + " >= ?"@);
    assert("id <= ?"@ =~= "id"@ + " <= ?"@);
    assert("last_query_timestamp <= ?"@ =~= "last_query_timestamp"@ + " <= ?"@);
    assert("last_query_timestamp >= ?"@ =~= "last_query_timestamp"@ + " >= ?"@);
    let time = "last_query_timestamp"@;
    relational::lemma_one_arg("id = ?"@, "id"@, Test::Equal, arg, row, like);
    relational::lemma_one_arg("id >= ?"@, "id"@, Test::AtLeast, arg, row, like);
    relational::lemma_one_arg("id <= ?"@, "id"@, Test::AtMost, arg, row, like);
    relational::lemma_one_arg("last_query_timestamp <= ?"@, time, Test::AtMost, arg, row, like);
    relational::lemma_one_arg("last_query_timestamp >= ?"@, time, Test::AtLeast, arg, row, like);
}

proof fn lemma_conds_select(
    p: ClientListGetParam,
    c: ClientData,
    like: spec_fn(Seq<char>, Seq<char>) -> bool,
)
    ensures
        relational::meets_all(client_list::client_conds(p), client_column(c), like) <==> asked_for(
            p,
            c,
        ),
{
    let row = client_column(c);
    let c0 = client_list::number_cond("id = ?"@, p.id);
    let c1 = client_list::text_cond("client_ip = ?"@, p.client_ip);
    let c2 = client_list::text_cond("mac = ?"@, p.mac);
    let c3 = client_list::text_cond("hostname = ?"@, p.hostname);
    let c4 = client_list::number_cond("last_query_timestamp <= ?"@, p.timestamp_before);
    let c5 = client_list::number_cond("last_query_timestamp >= ?"@, p.timestamp_after);
    relational::lemma_meets_add(c0, c1, row, like);
    relational::lemma_meets_add(c0 + c1, c2, row, like);
    relational::lemma_meets_add(c0 + c1 + c2, c3, row, like);
    relational::lemma_meets_add(c0 + c1 + c2 + c3, c4, row, like);
    relational::lemma_meets_add(c0 + c1 + c2 + c3 + c4, c5, row, like);
    if p.id is Some {
        relational::law_decimal_stands_for_its_number(p.id->0 as nat);
        lemma_tests_of_numbers(c, text::decimal(p.id->0 as nat), like);
    }
    if p.client_ip is Some {
        lemma_tests_of_texts(c, p.client_ip->0@, like);
    }
    if p.mac is Some {
        lemma_tests_of_texts(c, p.mac->0@, like);
    }
    if p.hostname is Some {
        lemma_tests_of_texts(c, p.hostname->0@, like);
    }
    if p.timestamp_before is Some {
        relational::law_decimal_stands_for_its_number(p.timestamp_before->0 as nat);
        lemma_tests_of_numbers(c, text::decimal(p.timestamp_before->0 as nat), like);
    }
    if p.timestamp_after is Some {
        relational::law_decimal_stands_for_its_number(p.timestamp_after->0 as nat);
        lemma_tests_of_numbers(c, text::decimal(p.timestamp_after->0 as nat), like);
    }
}

/// The `WHERE` clause of a request selects exactly the clients that are asked for.
pub proof fn law_client_clause_selects_what_is_asked_for(
    p: ClientListGetParam,
    like: spec_fn(Seq<char>, Seq<char>) -> bool,
)
    requires
        client_list::client_clauses(Some(&p)) is Ok,
    ensures
        ({
            let q = client_list::client_clauses(Some(&p))->Ok_0;
            exists|conds: Seq<sql::Cond>| #[trigger]
                relational::demands(q.where_text, q.args, conds) && forall|c: ClientData|
                    #[trigger]
                    relational::meets_all(conds, client_column(c), like) <==> asked_for(p, c)
        }),
{
    let q = client_list::client_clauses(Some(&p))->Ok_0;
    let conds = client_list::client_conds(p);
    relational::law_where_clause_demands_every_condition(conds);
    assert(relational::demands(q.where_text, q.args, conds));
    assert forall|c: ClientData| #[trigger]
        relational::meets_all(conds, client_column(c), like) <==> asked_for(p, c) by {
        lemma_conds_select(p, c, like);
    }
}

/// The clause of a page that is found by its first row selects the clients that
/// are asked for, from that row on in the order of the request.
pub proof fn law_anchored_clause_goes_on_from_its_row(
    p: ClientListGetParam,
    anchor: i64,
    like: spec_fn(Seq<char>, Seq<char>) -> bool,
)
    requires
        client_list::client_clauses(Some(&p)) is Ok,
    ensures
        ({
            let q = client_list::client_clauses(Some(&p))->Ok_0;
            exists|conds: Seq<sql::Cond>| #[trigger]
                relational::demands(
                    client_list::anchored_where(p, q),
                    q.args.push(text::signed_decimal(anchor as int)),
                    conds,
                ) && forall|c: ClientData| #[trigger]
                    relational::meets_all(conds, client_column(c), like) <==> asked_for(p, c) && if
                    relational::asks_ascending(p.order) {
                        c.id >= anchor
                    } else {
                        c.id <= anchor
                    }
        }),
{
    let q = client_list::client_clauses(Some(&p))->Ok_0;
    let held = client_list::client_conds(p);
    let arg = text::signed_decimal(anchor as int);
    if p.order is Some {
        relational::lemma_words(p.order->0@);
    }
    let from = if sql::is_asc(p.order) {
        "id >= ?"@
    } else {
        "id <= ?"@
    };
    let conds = held.push(sql::Cond { text: from, args: seq![arg] });
    assert(conds =~= held + sql::one_arg(from, arg));
    relational::law_where_clause_demands_every_condition(held);
    assert(conds.drop_last() =~= held);
    assert(relational::conjunction_args(conds) =~= q.args.push(arg));
    let clause = client_list::anchored_where(p, q);
    if held.len() == 0 {
        assert(clause =~= " WHERE "@ + relational::conjunction(conds));
    } else {
        reveal_strlit(" WHERE ");
        assert(q.where_text.len() > 0);
        assert(clause =~= " WHERE "@ + relational::conjunction(conds));
    }
    assert(relational::demands(clause, q.args.push(arg), conds));
    relational::law_signed_decimal_stands_for_its_number(anchor as int);
    assert forall|c: ClientData| #[trigger]
        relational::meets_all(conds, client_column(c), like) <==> asked_for(p, c) && if
        relational::asks_ascending(p.order) {
            c.id >= anchor
        } else {
            c.id <= anchor
        } by {
        lemma_conds_select(p, c, like);
        lemma_tests_of_numbers(c, arg, like);
        relational::lemma_meets_add(held, sql::one_arg(from, arg), client_column(c), like);
    }
}

/// A request for clients is refused exactly for an order that means nothing.
pub proof fn law_request_is_refused_for_its_order(p: ClientListGetParam)
    ensures
        ({
            let r = client_list::client_clauses(Some(&p));
            let means_something = p.order matches Some(o) ==> relational::spells(
                o@,
                seq!['a', 's', 'c'],
            ) || relational::spells(o@, seq!['d', 'e', 's', 'c']);
            &&& r is Ok <==> means_something
            &&& r is Err ==> r == Err::<sql::Clauses, DbError>(DbError::OrderParam)
        }),
{
    if p.order is Some {
        relational::lemma_words(p.order->0@);
    }
}

/// Clients are read newest first unless the request asks for the oldest first:
/// by the time of their last query where the request bounds it, else by number.
pub proof fn law_clients_are_read_in_order(p: ClientListGetParam)
    requires
        client_list::client_clauses(Some(&p)) is Ok,
    ensures
        ({
            let falling = !relational::asks_ascending(p.order);
            client_list::client_clauses(Some(&p))->Ok_0.order_text == if p.timestamp_before is Some
                || p.timestamp_after is Some {
                relational::order_by("last_query_timestamp"@, "id"@, falling)
            } else {
                relational::order_by("id"@, "last_query_timestamp"@, falling)
            }
        }),
{
    if p.order is Some {
        relational::lemma_words(p.order->0@);
    }
    reveal_strlit(" DESC");
    reveal_strlit(" ASC");
    reveal_strlit(" ORDER BY ");
    reveal_strlit(", ");
    reveal_strlit("last_query_timestamp");
    reveal_strlit("id");
    let falling = !sql::is_asc(p.order);
    assert(client_list::client_order(p) =~= if p.timestamp_before is Some
        || p.timestamp_after is Some {
        relational::order_by("last_query_timestamp"@, "id"@, falling)
    } else {
        relational::order_by("id"@, "last_query_timestamp"@, falling)
    }) by {
        if falling {
            reveal_strlit(" ORDER BY last_query_timestamp DESC, id DESC");
            reveal_strlit(" ORDER BY id DESC, last_query_timestamp DESC");
        } else {
            reveal_strlit(" ORDER BY last_query_timestamp ASC, id ASC");
            reveal_strlit(" ORDER BY id ASC, last_query_timestamp ASC");
        }
    }
}

/// A new request asks for the ten newest clients, whoever they are.
pub proof fn law_new_request_asks_for_the_newest_clients(c: ClientData)
    ensures
        ({
            let p = model::first_clients();
            &&& asked_for(p, c)
            &&& client_list::client_clauses(Some(&p)) is Ok
            &&& !relational::asks_ascending(p.order)
            &&& p.page_num == 1 && p.page_size == 10
        }),
{
}

/// The page of a request is found by its first row.
pub open spec fn goes_by_first_row(p: ClientListGetParam) -> bool {
    p.timestamp_before is None && p.timestamp_after is None && p.page_num > 1
}

/// The texts of the clauses are bound first, in their order.
pub open spec fn binds_first(q: sql::Command, args: Seq<Seq<char>>) -> bool {
    &&& q.params.len() >= args.len()
    &&& forall|i: int| 0 <= i < args.len() ==> #[trigger] q.params[i] == sql::SqlValue::Text(args[i])
}

/// The query for a page reads the columns of a client in their order and takes
/// as many rows as the page has. The rows of the earlier pages are left out by
/// number where times are bounded, and by the first row of the page else, where
/// that was found.
pub proof fn law_page_of_clients(p: ClientListGetParam, c: sql::Clauses, anchor: Option<i64>)
    requires
        p.page_num >= 1,
    ensures
        ({
            let q = client_list::client_page(Some(&p), c, anchor);
            let head = relational::select(columns(), "client"@);
            let n = c.args.len() as int;
            &&& binds_first(q, c.args)
            &&& p.timestamp_before is Some || p.timestamp_after is Some ==> {
                &&& q.sql == head + c.where_text + c.order_text + " LIMIT ? OFFSET ?"@
                &&& q.params.len() == n + 2
                &&& relational::is_number(q.params[n], p.page_size as int)
                &&& relational::is_number(q.params[n + 1], (p.page_num - 1) * p.page_size)
            }
            &&& goes_by_first_row(p) && anchor is Some ==> {
                &&& q.sql == head + client_list::anchored_where(p, c) + c.order_text + " LIMIT ?"@
                &&& q.params.len() == n + 2
                &&& relational::is_number(q.params[n], anchor->0 as int)
                &&& relational::is_number(q.params[n + 1], p.page_size as int)
            }
            &&& p.timestamp_before is None && p.timestamp_after is None && !(goes_by_first_row(p)
                && anchor is Some) ==> {
                &&& q.sql == head + c.where_text + c.order_text + " LIMIT ?"@
                &&& q.params.len() == n + 1
                &&& relational::is_number(q.params[n], p.page_size as int)
            }
        }),
{
    lemma_select_text();
    relational::law_decimal_stands_for_its_number(p.page_size as nat);
    let skipped = (p.page_num - 1) * p.page_size;
    assert(skipped >= 0) by (nonlinear_arith)
        requires
            skipped == (p.page_num - 1) * p.page_size,
            p.page_num >= 1,
    ;
    relational::law_decimal_stands_for_its_number(skipped as nat);
    if anchor is Some {
        relational::law_signed_decimal_stands_for_its_number(anchor->0 as int);
    }
}

/// The query for the first row of a page leaves out the rows of the earlier
/// pages and takes one row; it is asked for exactly where the page is found by
/// that row.
pub proof fn law_first_row_of_a_page(p: ClientListGetParam, c: sql::Clauses)
    requires
        p.page_num >= 1,
    ensures
        client_list::anchored(p) <==> goes_by_first_row(p),
        ({
            let q = client_list::client_anchor(p, c);
            let n = c.args.len() as int;
            &&& q.sql == relational::select(columns(), "client"@) + c.where_text + c.order_text
                + " LIMIT 1 OFFSET ?"@
            &&& binds_first(q, c.args)
            &&& q.params.len() == n + 1
            &&& relational::is_number(q.params[n], (p.page_num - 1) * p.page_size)
        }),
{
    lemma_select_text();
    let skipped = (p.page_num - 1) * p.page_size;
    assert(skipped >= 0) by (nonlinear_arith)
        requires
            skipped == (p.page_num - 1) * p.page_size,
            p.page_num >= 1,
    ;
    relational::law_decimal_stands_for_its_number(skipped as nat);
}

/// Without a request every client is read.
pub proof fn law_all_clients_are_read(anchor: Option<i64>)
    ensures
        client_list::client_page(None, sql::no_clauses(), anchor) == sql::bare(
            relational::select(columns(), "client"@),
        ),
        client_list::client_clauses(None) == Ok::<sql::Clauses, DbError>(sql::no_clauses()),
{
    lemma_select_text();
    let q = client_list::client_page(None, sql::no_clauses(), anchor);
    assert(q.params =~= Seq::empty());
}

/// A page of clients can be counted off where there are 64-bit many rows before it.
pub proof fn law_pages_that_can_be_counted_off(p: ClientListGetParam)
    ensures
        client_list::client_page_in_range(Some(&p)) <==> p.page_num >= 1 && (p.page_num - 1)
            * p.page_size <= 0xffff_ffff_ffff_ffff,
{
}

/// A new name is written to the client with the number that is bound first.
pub proof fn law_new_name_is_bound_second(id: u32, name: String)
    ensures
        ({
            let v = clients::hostname_values((id, name));
            &&& v.len() == 2
            &&& relational::is_cell(v[0], Cell::Number(id as int))
            &&& relational::is_cell(v[1], Cell::Text(name@))
        }),
{
}

/// The clients of a request are counted under the same conditions as its pages.
pub proof fn law_clients_are_counted(c: sql::Clauses)
    ensures
        ({
            let q = client_list::client_count(Ok(c));
            &&& q.sql == relational::select(seq!["COUNT(*)"@], "client"@) + c.where_text
                + c.order_text
            &&& q.params == sql::text_values(c.args)
        }),
{
    reveal_strlit("SELECT COUNT(*) FROM client");
    reveal_strlit("SELECT ");
    reveal_strlit("COUNT(*)");
    reveal_strlit(" FROM ");
    reveal_strlit("client");
    assert("SELECT COUNT(*) FROM client"@ =~= relational::select(seq!["COUNT(*)"@], "client"@));
}

} // verus!
