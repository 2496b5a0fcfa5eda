//! Writing clients and their names.

use vstd::prelude::*;
use vstd::string::*;

use crate::db::DB;
use crate::error::DbError;
use crate::model::ClientData;
use crate::sql;
use crate::sql::{Batch, SqlParam};

verus! {

/// The statement that adds a client, or renews the time of its last query; a
/// name that is known stays, and an empty one is filled in.
pub open spec fn insert_client_text() -> Seq<char> {
    "INSERT INTO client (id, client_ip, mac, hostname, last_query_timestamp) VALUES (
            (SELECT MAX(rowid) FROM client) + 1,
            ?1, ?2, ?3, ?4)
            ON CONFLICT(client_ip, mac) DO UPDATE SET
                last_query_timestamp = excluded.last_query_timestamp,
                hostname = CASE WHEN hostname = '' THEN excluded.hostname ELSE hostname END;
            "@
}

/// The values of a client.
pub open spec fn client_values(c: ClientData) -> Seq<sql::SqlValue> {
    seq![
        sql::SqlValue::Text(c.client_ip@),
        sql::SqlValue::Text(c.mac@),
        sql::SqlValue::Text(c.hostname@),
        sql::SqlValue::Unsigned(c.last_query_timestamp as nat),
    ]
}

/// The values of a new name: the number of the client, and the name.
pub open spec fn hostname_values(u: (u32, String)) -> Seq<sql::SqlValue> {
    seq![sql::SqlValue::Integer(u.0 as int), sql::SqlValue::Text(u.1@)]
}

impl DB {
    /// The batch that writes clients; what it makes of the table is
    /// [`clients_written`].
    pub fn insert_client(&self, client_data: &Vec<ClientData>) -> (r: Result<Batch, DbError>)
        ensures
            match r {
                Ok(b) => self.is_open && b@ == (sql::BatchModel {
                    sql: insert_client_text(),
                    rows: Seq::new(client_data@.len(), |i: int| client_values(client_data@[i])),
                }),
                Err(e) => !self.is_open && e == DbError::NotOpen,
            },
    {
        if !self.is_open {
            return Err(DbError::NotOpen);
        }
        let mut rows: Vec<Vec<SqlParam>> = Vec::new();
        let mut i: usize = 0;
        while i < client_data.len()
            invariant
                i <= client_data@.len(),
                sql::row_values(rows@) == Seq::new(
                    i as nat,
                    |k: int| client_values(client_data@[k]),
                ),
            decreases client_data@.len() - i,
        {
            let ghost held = rows@;
            let d = &client_data[i];
            let mut row: Vec<SqlParam> = Vec::new();
            row.push(SqlParam::Text(d.client_ip.clone()));
            row.push(SqlParam::Text(d.mac.clone()));
            row.push(SqlParam::Text(d.hostname.clone()));
            row.push(SqlParam::Unsigned(d.last_query_timestamp));
            assert(sql::values(row@) =~= client_values(*d));
            rows.push(row);
            proof {
                sql::lemma_row_values_push(held, rows@.last());
                assert(sql::row_values(rows@) =~= Seq::new(
                    (i + 1) as nat,
                    |k: int| client_values(client_data@[k]),
                ));
            }
            i += 1;
        }
        let text: &str =
            "INSERT INTO client (id, client_ip, mac, hostname, last_query_timestamp) VALUES (
            (SELECT MAX(rowid) FROM client) + 1,
            ?1, ?2, ?3, ?4)
            ON CONFLICT(client_ip, mac) DO UPDATE SET
                last_query_timestamp = excluded.last_query_timestamp,
                hostname = CASE WHEN hostname = '' THEN excluded.hostname ELSE hostname END;
            ";
        Ok(Batch { sql: text.to_owned(), rows })
    }

    /// The batch that writes the names of clients (startup backfill only;
    /// regular per-query upserts never touch existing hostnames).
    pub fn update_client_hostnames(&self, updates: &Vec<(u32, String)>) -> (r: Result<
        Batch,
        DbError,
    >)
        ensures
            match r {
                Ok(b) => self.is_open && b@ == (sql::BatchModel {
                    sql: "UPDATE client SET hostname = ?2 WHERE id = ?1"@,
                    rows: Seq::new(updates@.len(), |i: int| hostname_values(updates@[i])),
                }),
                Err(e) => !self.is_open && e == DbError::NotOpen,
            },
    {
        if !self.is_open {
            return Err(DbError::NotOpen);
        }
        let mut rows: Vec<Vec<SqlParam>> = Vec::new();
        let mut i: usize = 0;
        while i < updates.len()
            invariant
                i <= updates@.len(),
                sql::row_values(rows@) == Seq::new(i as nat, |k: int| hostname_values(updates@[k])),
            decreases updates@.len() - i,
        {
            let ghost held = rows@;
            let mut row: Vec<SqlParam> = Vec::new();
            row.push(SqlParam::Integer(updates[i].0 as i64));
            row.push(SqlParam::Text(updates[i].1.clone()));
            assert(sql::values(row@) =~= hostname_values(updates@[i as int]));
            rows.push(row);
            proof {
                sql::lemma_row_values_push(held, rows@.last());
                assert(sql::row_values(rows@) =~= Seq::new(
                    (i + 1) as nat,
                    |k: int| hostname_values(updates@[k]),
                ));
            }
            i += 1;
        }
        Ok(
            Batch { sql: "UPDATE client SET hostname = ?2 WHERE id = ?1".to_owned(), rows },
        )
    }
}

/// A row of the table of clients, which is found by address and hardware address.
pub struct ClientRow {
    pub id: int,
    pub hostname: Seq<char>,
    pub last_query_timestamp: u64,
}

/// The number is one above the largest of the table; 1 for the first client.
pub open spec fn is_next_id(table: Map<(Seq<char>, Seq<char>), ClientRow>, id: int) -> bool {
    if table.dom() == Set::<(Seq<char>, Seq<char>)>::empty() {
        id == 1
    } else {
        &&& forall|k: (Seq<char>, Seq<char>)| #[trigger] table.contains_key(k) ==> table[k].id < id
        &&& exists|k: (Seq<char>, Seq<char>)| #[trigger]
            table.contains_key(k) && table[k].id == id - 1
    }
}

/// The table of clients after one client was written: a client that is there
/// gets the time of its last query, and a name where it has none.
pub open spec fn client_written(
    table: Map<(Seq<char>, Seq<char>), ClientRow>,
    c: ClientData,
) -> Map<(Seq<char>, Seq<char>), ClientRow> {
    let key = (c.client_ip@, c.mac@);
    let row = if table.contains_key(key) {
        ClientRow {
            id: table[key].id,
            hostname: if table[key].hostname.len() == 0 {
                c.hostname@
            } else {
                table[key].hostname
            },
            last_query_timestamp: c.last_query_timestamp,
        }
    } else {
        ClientRow {
            id: choose|id: int| is_next_id(table, id),
            hostname: c.hostname@,
            last_query_timestamp: c.last_query_timestamp,
        }
    };
    table.insert(key, row)
}

/// The table of clients after a list of clients was written, one after another.
pub open spec fn clients_written(
    table: Map<(Seq<char>, Seq<char>), ClientRow>,
    data: Seq<ClientData>,
) -> Map<(Seq<char>, Seq<char>), ClientRow>
    decreases data.len(),
{
    if data.len() == 0 {
        table
    } else {
        client_written(clients_written(table, data.drop_last()), data.last())
    }
}

/// Writing a client leaves a name that is known: only the time of its last
/// query changes, and no other client does.
pub proof fn law_upsert_keeps_a_known_name(
    table: Map<(Seq<char>, Seq<char>), ClientRow>,
    c: ClientData,
)
    requires
        table.contains_key((c.client_ip@, c.mac@)),
        table[(c.client_ip@, c.mac@)].hostname.len() > 0,
    ensures
        ({
            let key = (c.client_ip@, c.mac@);
            let after = client_written(table, c);
            &&& after.dom() == table.dom()
            &&& after[key] == (ClientRow {
                last_query_timestamp: c.last_query_timestamp,
                ..table[key]
            })
            &&& forall|k: (Seq<char>, Seq<char>)|
                k != key && table.contains_key(k) ==> #[trigger] after[k] == table[k]
        }),
{
    let after = client_written(table, c);
    assert(after.dom() =~= table.dom());
}

/// No list of clients changes the number of a client that is there, nor a name
/// that is known.
pub proof fn law_known_names_outlast_every_write(
    table: Map<(Seq<char>, Seq<char>), ClientRow>,
    data: Seq<ClientData>,
    key: (Seq<char>, Seq<char>),
)
    requires
        table.contains_key(key),
    ensures
        clients_written(table, data).contains_key(key),
        clients_written(table, data)[key].id == table[key].id,
        table[key].hostname.len() > 0 ==> clients_written(table, data)[key].hostname
            == table[key].hostname,
    decreases data.len(),
{
    if data.len() > 0 {
        law_known_names_outlast_every_write(table, data.drop_last(), key);
    }
}

} // verus!
