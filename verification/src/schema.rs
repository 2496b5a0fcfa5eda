//! The tables of the store: their columns, and what is found by what.

use vstd::prelude::*;

use crate::client_rows;
use crate::log_columns;
use crate::open;
use crate::sql;
use crate::summary_columns;

verus! {

/// The first `n` definitions of columns, each on a line of its own that begins
/// with `pad`.
pub open spec fn defined(
    columns: Seq<Seq<char>>,
    kinds: Seq<Seq<char>>,
    n: nat,
    pad: Seq<char>,
) -> Seq<char>
    decreases n,
{
    if n == 0 {
        Seq::empty()
    } else if n == 1 {
        pad + columns[0] + " "@ + kinds[0]
    } else {
        defined(columns, kinds, (n - 1) as nat, pad) + ","@ + pad + columns[n - 1] + " "@ + kinds[n
            - 1]
    }
}

/// A statement that creates a table where it is not there, with a column for
/// each name and kind; `rest` is what follows the columns.
pub open spec fn creates(
    table: Seq<char>,
    columns: Seq<Seq<char>>,
    kinds: Seq<Seq<char>>,
    pad: Seq<char>,
    rest: Seq<char>,
) -> Seq<char> {
    "CREATE TABLE IF NOT EXISTS "@ + table + " ("@ + defined(columns, kinds, columns.len(), pad)
        + rest
}

/// The kinds of the columns of `domain`.
pub open spec fn domain_kinds() -> Seq<Seq<char>> {
    seq![
        "INTEGER PRIMARY KEY AUTOINCREMENT"@,
        "BIGINT NOT NULL"@,
        "TEXT NOT NULL"@,
        "INTEGER NOT NULL"@,
        "TEXT NOT NULL"@,
        "TEXT NOT NULL"@,
        "INTEGER NOT NULL"@,
        "INTEGER NOT NULL"@,
        "REAL NOT NULL"@,
        "INTEGER DEFAULT 0"@,
        "INTEGER DEFAULT 0"@,
    ]
}

proof fn lemma_domain_columns_to_3()
    ensures
        defined(log_columns::read_columns(), domain_kinds(), 3, "
                "@)
            == "
                id INTEGER PRIMARY KEY AUTOINCREMENT,
                timestamp BIGINT NOT NULL,
                domain TEXT NOT NULL"@,
{
    reveal_with_fuel(defined, 4);
    reveal_strlit("
                id INTEGER PRIMARY KEY AUTOINCREMENT,
                timestamp BIGINT NOT NULL,
                domain TEXT NOT NULL");
    reveal_strlit("
                ");
    reveal_strlit(",");
    reveal_strlit(" ");
    reveal_strlit("id");
    reveal_strlit("INTEGER PRIMARY KEY AUTOINCREMENT");
    reveal_strlit("timestamp");
    reveal_strlit("BIGINT NOT NULL");
    reveal_strlit("domain");
    reveal_strlit("TEXT NOT NULL");
    assert(defined(log_columns::read_columns(), domain_kinds(), 3, "
                "@)
        =~= "
                id INTEGER PRIMARY KEY AUTOINCREMENT,
                timestamp BIGINT NOT NULL,
                domain TEXT NOT NULL"@);
}

proof fn lemma_domain_columns_to_6()
    ensures
        defined(log_columns::read_columns(), domain_kinds(), 6, "
                "@)
            == "
                id INTEGER PRIMARY KEY AUTOINCREMENT,
                timestamp BIGINT NOT NULL,
                domain TEXT NOT NULL,
                domain_type INTEGER NOT NULL,
                client TEXT NOT NULL,
                domain_group TEXT NOT NULL"@,
{
    lemma_domain_columns_to_3();
    reveal_with_fuel(defined, 4);
    reveal_strlit("
                id INTEGER PRIMARY KEY AUTOINCREMENT,
                timestamp BIGINT NOT NULL,
                domain TEXT NOT NULL");
    reveal_strlit("
                id INTEGER PRIMARY KEY AUTOINCREMENT,
                timestamp BIGINT NOT NULL,
                domain TEXT NOT NULL,
                domain_type INTEGER NOT NULL,
                client TEXT NOT NULL,
                domain_group TEXT NOT NULL");
    reveal_strlit("
                ");
    reveal_strlit(",");
    reveal_strlit(" ");
    reveal_strlit("domain_type");
    reveal_strlit("INTEGER NOT NULL");
    reveal_strlit("client");
    reveal_strlit("TEXT NOT NULL");
    reveal_strlit("domain_group");
    assert(defined(log_columns::read_columns(), domain_kinds(), 6, "
                "@)
        =~= "
                id INTEGER PRIMARY KEY AUTOINCREMENT,
                timestamp BIGINT NOT NULL,
                domain TEXT NOT NULL,
                domain_type INTEGER NOT NULL,
                client TEXT NOT NULL,
                domain_group TEXT NOT NULL"@);
}

proof fn lemma_domain_columns_to_9()
    ensures
        defined(log_columns::read_columns(), domain_kinds(), 9, "
                "@)
            == "
                id INTEGER PRIMARY KEY AUTOINCREMENT,
                timestamp BIGINT NOT NULL,
                domain TEXT NOT NULL,
                domain_type INTEGER NOT NULL,
                client TEXT NOT NULL,
                domain_group TEXT NOT NULL,
                reply_code INTEGER NOT NULL,
                query_time INTEGER NOT NULL,
                ping_time REAL NOT NULL"@,
{
    lemma_domain_columns_to_6();
    reveal_with_fuel(defined, 4);
    reveal_strlit("
                id INTEGER PRIMARY KEY AUTOINCREMENT,
                timestamp BIGINT NOT NULL,
                domain TEXT NOT NULL,
                domain_type INTEGER NOT NULL,
                client TEXT NOT NULL,
                domain_group TEXT NOT NULL");
    reveal_strlit("
                id INTEGER PRIMARY KEY AUTOINCREMENT,
                timestamp BIGINT NOT NULL,
                domain TEXT NOT NULL,
                domain_type INTEGER NOT NULL,
                client TEXT NOT NULL,
                domain_group TEXT NOT NULL,
                reply_code INTEGER NOT NULL,
                query_time INTEGER NOT NULL,
                ping_time REAL NOT NULL");
    reveal_strlit("
                ");
    reveal_strlit(",");
    reveal_strlit(" ");
    reveal_strlit("reply_code");
    reveal_strlit("INTEGER NOT NULL");
    reveal_strlit("query_time");
    reveal_strlit("ping_time");
    reveal_strlit("REAL NOT NULL");
    assert(defined(log_columns::read_columns(), domain_kinds(), 9, "
                "@)
        =~= "
                id INTEGER PRIMARY KEY AUTOINCREMENT,
                timestamp BIGINT NOT NULL,
                domain TEXT NOT NULL,
                domain_type INTEGER NOT NULL,
                client TEXT NOT NULL,
                domain_group TEXT NOT NULL,
                reply_code INTEGER NOT NULL,
                query_time INTEGER NOT NULL,
                ping_time REAL NOT NULL"@);
}

proof fn lemma_domain_columns()
    ensures
        defined(log_columns::read_columns(), domain_kinds(), 11, "
                "@)
            == "
                id INTEGER PRIMARY KEY AUTOINCREMENT,
                timestamp BIGINT NOT NULL,
                domain TEXT NOT NULL,
                domain_type INTEGER NOT NULL,
                client TEXT NOT NULL,
                domain_group TEXT NOT NULL,
                reply_code INTEGER NOT NULL,
                query_time INTEGER NOT NULL,
                ping_time REAL NOT NULL,
                is_blocked INTEGER DEFAULT 0,
                is_cached INTEGER DEFAULT 0"@,
{
    lemma_domain_columns_to_9();
    reveal_with_fuel(defined, 3);
    reveal_strlit("
                id INTEGER PRIMARY KEY AUTOINCREMENT,
                timestamp BIGINT NOT NULL,
                domain TEXT NOT NULL,
                domain_type INTEGER NOT NULL,
                client TEXT NOT NULL,
                domain_group TEXT NOT NULL,
                reply_code INTEGER NOT NULL,
                query_time INTEGER NOT NULL,
                ping_time REAL NOT NULL");
    reveal_strlit("
                id INTEGER PRIMARY KEY AUTOINCREMENT,
                timestamp BIGINT NOT NULL,
                domain TEXT NOT NULL,
                domain_type INTEGER NOT NULL,
                client TEXT NOT NULL,
                domain_group TEXT NOT NULL,
                reply_code INTEGER NOT NULL,
                query_time INTEGER NOT NULL,
                ping_time REAL NOT NULL,
                is_blocked INTEGER DEFAULT 0,
                is_cached INTEGER DEFAULT 0");
    reveal_strlit("
                ");
    reveal_strlit(",");
    reveal_strlit(" ");
    reveal_strlit("is_blocked");
    reveal_strlit("INTEGER DEFAULT 0");
    reveal_strlit("is_cached");
    assert(defined(log_columns::read_columns(), domain_kinds(), 11, "
                "@)
        =~= "
                id INTEGER PRIMARY KEY AUTOINCREMENT,
                timestamp BIGINT NOT NULL,
                domain TEXT NOT NULL,
                domain_type INTEGER NOT NULL,
                client TEXT NOT NULL,
                domain_group TEXT NOT NULL,
                reply_code INTEGER NOT NULL,
                query_time INTEGER NOT NULL,
                ping_time REAL NOT NULL,
                is_blocked INTEGER DEFAULT 0,
                is_cached INTEGER DEFAULT 0"@);
}

proof fn lemma_domain_text()
    ensures
        open::CREATE_DOMAIN_SQL@ == creates(
            "domain"@,
            log_columns::read_columns(),
            domain_kinds(),
            "
                "@,
            "
            )"@,
        ),
{
    lemma_domain_columns();
    reveal_strlit("CREATE TABLE IF NOT EXISTS domain (
                id INTEGER PRIMARY KEY AUTOINCREMENT,
                timestamp BIGINT NOT NULL,
                domain TEXT NOT NULL,
                domain_type INTEGER NOT NULL,
                client TEXT NOT NULL,
                domain_group TEXT NOT NULL,
                reply_code INTEGER NOT NULL,
                query_time INTEGER NOT NULL,
                ping_time REAL NOT NULL,
                is_blocked INTEGER DEFAULT 0,
                is_cached INTEGER DEFAULT 0
            )");
    reveal_strlit("CREATE TABLE IF NOT EXISTS ");
    reveal_strlit("domain");
    reveal_strlit(" (");
    reveal_strlit("
                id INTEGER PRIMARY KEY AUTOINCREMENT,
                timestamp BIGINT NOT NULL,
                domain TEXT NOT NULL,
                domain_type INTEGER NOT NULL,
                client TEXT NOT NULL,
                domain_group TEXT NOT NULL,
                reply_code INTEGER NOT NULL,
                query_time INTEGER NOT NULL,
                ping_time REAL NOT NULL,
                is_blocked INTEGER DEFAULT 0,
                is_cached INTEGER DEFAULT 0");
    reveal_strlit("
            )");
    assert(open::CREATE_DOMAIN_SQL@ =~= creates(
        "domain"@,
        log_columns::read_columns(),
        domain_kinds(),
        "
                "@,
        "
            )"@,
    ));
}

/// The kinds of the columns of `domain_hourly_count`.
pub open spec fn hourly_count_kinds() -> Seq<Seq<char>> {
    seq![
        "BIGINT PRIMARY KEY"@,
        "INTEGER DEFAULT 0"@,
    ]
}

/// The columns of `domain_hourly_count`.
pub open spec fn hourly_count_columns() -> Seq<Seq<char>> {
    seq!["timestamp"@, "count"@]
}

proof fn lemma_hourly_count_columns()
    ensures
        defined(hourly_count_columns(), hourly_count_kinds(), 2, "
                "@)
            == "
                timestamp BIGINT PRIMARY KEY,
                count INTEGER DEFAULT 0"@,
{
    reveal_with_fuel(defined, 3);
    reveal_strlit("
                timestamp BIGINT PRIMARY KEY,
                count INTEGER DEFAULT 0");
    reveal_strlit("
                ");
    reveal_strlit(",");
    reveal_strlit(" ");
    reveal_strlit("timestamp");
    reveal_strlit("BIGINT PRIMARY KEY");
    reveal_strlit("count");
    reveal_strlit("INTEGER DEFAULT 0");
    assert(defined(hourly_count_columns(), hourly_count_kinds(), 2, "
                "@)
        =~= "
                timestamp BIGINT PRIMARY KEY,
                count INTEGER DEFAULT 0"@);
}

proof fn lemma_hourly_count_text()
    ensures
        open::CREATE_HOURLY_COUNT_SQL@ == creates(
            "domain_hourly_count"@,
            hourly_count_columns(),
            hourly_count_kinds(),
            "
                "@,
            "
            );"@,
        ),
{
    lemma_hourly_count_columns();
    reveal_strlit("CREATE TABLE IF NOT EXISTS domain_hourly_count (
                timestamp BIGINT PRIMARY KEY,
                count INTEGER DEFAULT 0
            );");
    reveal_strlit("CREATE TABLE IF NOT EXISTS ");
    reveal_strlit("domain_hourly_count");
    reveal_strlit(" (");
    reveal_strlit("
                timestamp BIGINT PRIMARY KEY,
                count INTEGER DEFAULT 0");
    reveal_strlit("
            );");
    assert(open::CREATE_HOURLY_COUNT_SQL@ =~= creates(
        "domain_hourly_count"@,
        hourly_count_columns(),
        hourly_count_kinds(),
        "
                "@,
        "
            );"@,
    ));
}

/// The kinds of the columns of `domain_daily_count`.
pub open spec fn daily_count_kinds() -> Seq<Seq<char>> {
    seq![
        "BIGINT PRIMARY KEY"@,
        "INTEGER DEFAULT 0"@,
    ]
}

/// The columns of `domain_daily_count`.
pub open spec fn daily_count_columns() -> Seq<Seq<char>> {
    seq!["timestamp"@, "count"@]
}

proof fn lemma_daily_count_columns()
    ensures
        defined(daily_count_columns(), daily_count_kinds(), 2, "
                "@)
            == "
                timestamp BIGINT PRIMARY KEY,
                count INTEGER DEFAULT 0"@,
{
    reveal_with_fuel(defined, 3);
    reveal_strlit("
                timestamp BIGINT PRIMARY KEY,
                count INTEGER DEFAULT 0");
    reveal_strlit("
                ");
    reveal_strlit(",");
    reveal_strlit(" ");
    reveal_strlit("timestamp");
    reveal_strlit("BIGINT PRIMARY KEY");
    reveal_strlit("count");
    reveal_strlit("INTEGER DEFAULT 0");
    assert(defined(daily_count_columns(), daily_count_kinds(), 2, "
                "@)
        =~= "
                timestamp BIGINT PRIMARY KEY,
                count INTEGER DEFAULT 0"@);
}

proof fn lemma_daily_count_text()
    ensures
        open::CREATE_DAILY_COUNT_SQL@ == creates(
            "domain_daily_count"@,
            daily_count_columns(),
            daily_count_kinds(),
            "
                "@,
            "
            );"@,
        ),
{
    lemma_daily_count_columns();
    reveal_strlit("CREATE TABLE IF NOT EXISTS domain_daily_count (
                timestamp BIGINT PRIMARY KEY,
                count INTEGER DEFAULT 0
            );");
    reveal_strlit("CREATE TABLE IF NOT EXISTS ");
    reveal_strlit("domain_daily_count");
    reveal_strlit(" (");
    reveal_strlit("
                timestamp BIGINT PRIMARY KEY,
                count INTEGER DEFAULT 0");
    reveal_strlit("
            );");
    assert(open::CREATE_DAILY_COUNT_SQL@ =~= creates(
        "domain_daily_count"@,
        daily_count_columns(),
        daily_count_kinds(),
        "
                "@,
        "
            );"@,
    ));
}

/// The kinds of the columns of `domain_hourly_detail`.
pub open spec fn hourly_detail_kinds() -> Seq<Seq<char>> {
    seq![
        "BIGINT NOT NULL"@,
        "TEXT NOT NULL"@,
        "INTEGER DEFAULT 0"@,
        "INTEGER DEFAULT 0"@,
        "INTEGER DEFAULT 0"@,
        "REAL DEFAULT 0"@,
        "INTEGER DEFAULT 0"@,
        "REAL DEFAULT 0"@,
        "INTEGER DEFAULT 0"@,
    ]
}

proof fn lemma_hourly_detail_columns_to_3()
    ensures
        defined(summary_columns::columns(), hourly_detail_kinds(), 3, "
                "@)
            == "
                hour_timestamp BIGINT NOT NULL,
                domain_group TEXT NOT NULL,
                query_count INTEGER DEFAULT 0"@,
{
    reveal_with_fuel(defined, 4);
    reveal_strlit("
                hour_timestamp BIGINT NOT NULL,
                domain_group TEXT NOT NULL,
                query_count INTEGER DEFAULT 0");
    reveal_strlit("
                ");
    reveal_strlit(",");
    reveal_strlit(" ");
    reveal_strlit("hour_timestamp");
    reveal_strlit("BIGINT NOT NULL");
    reveal_strlit("domain_group");
    reveal_strlit("TEXT NOT NULL");
    reveal_strlit("query_count");
    reveal_strlit("INTEGER DEFAULT 0");
    assert(defined(summary_columns::columns(), hourly_detail_kinds(), 3, "
                "@)
        =~= "
                hour_timestamp BIGINT NOT NULL,
                domain_group TEXT NOT NULL,
                query_count INTEGER DEFAULT 0"@);
}

proof fn lemma_hourly_detail_columns_to_6()
    ensures
        defined(summary_columns::columns(), hourly_detail_kinds(), 6, "
                "@)
            == "
                hour_timestamp BIGINT NOT NULL,
                domain_group TEXT NOT NULL,
                query_count INTEGER DEFAULT 0,
                cached_count INTEGER DEFAULT 0,
                blocked_count INTEGER DEFAULT 0,
                cached_time_sum REAL DEFAULT 0"@,
{
    lemma_hourly_detail_columns_to_3();
    reveal_with_fuel(defined, 4);
    reveal_strlit("
                hour_timestamp BIGINT NOT NULL,
                domain_group TEXT NOT NULL,
                query_count INTEGER DEFAULT 0");
    reveal_strlit("
                hour_timestamp BIGINT NOT NULL,
                domain_group TEXT NOT NULL,
                query_count INTEGER DEFAULT 0,
                cached_count INTEGER DEFAULT 0,
                blocked_count INTEGER DEFAULT 0,
                cached_time_sum REAL DEFAULT 0");
    reveal_strlit("
                ");
    reveal_strlit(",");
    reveal_strlit(" ");
    reveal_strlit("cached_count");
    reveal_strlit("INTEGER DEFAULT 0");
    reveal_strlit("blocked_count");
    reveal_strlit("cached_time_sum");
    reveal_strlit("REAL DEFAULT 0");
    assert(defined(summary_columns::columns(), hourly_detail_kinds(), 6, "
                "@)
        =~= "
                hour_timestamp BIGINT NOT NULL,
                domain_group TEXT NOT NULL,
                query_count INTEGER DEFAULT 0,
                cached_count INTEGER DEFAULT 0,
                blocked_count INTEGER DEFAULT 0,
                cached_time_sum REAL DEFAULT 0"@);
}

proof fn lemma_hourly_detail_columns()
    ensures
        defined(summary_columns::columns(), hourly_detail_kinds(), 9, "
                "@)
            == "
                hour_timestamp BIGINT NOT NULL,
                domain_group TEXT NOT NULL,
                query_count INTEGER DEFAULT 0,
                cached_count INTEGER DEFAULT 0,
                blocked_count INTEGER DEFAULT 0,
                cached_time_sum REAL DEFAULT 0,
                cached_time_count INTEGER DEFAULT 0,
                uncached_time_sum REAL DEFAULT 0,
                uncached_time_count INTEGER DEFAULT 0"@,
{
    lemma_hourly_detail_columns_to_6();
    reveal_with_fuel(defined, 4);
    reveal_strlit("
                hour_timestamp BIGINT NOT NULL,
                domain_group TEXT NOT NULL,
                query_count INTEGER DEFAULT 0,
                cached_count INTEGER DEFAULT 0,
                blocked_count INTEGER DEFAULT 0,
                cached_time_sum REAL DEFAULT 0");
    reveal_strlit("
                hour_timestamp BIGINT NOT NULL,
                domain_group TEXT NOT NULL,
                query_count INTEGER DEFAULT 0,
                cached_count INTEGER DEFAULT 0,
                blocked_count INTEGER DEFAULT 0,
                cached_time_sum REAL DEFAULT 0,
                cached_time_count INTEGER DEFAULT 0,
                uncached_time_sum REAL DEFAULT 0,
                uncached_time_count INTEGER DEFAULT 0");
    reveal_strlit("
                ");
    reveal_strlit(",");
    reveal_strlit(" ");
    reveal_strlit("cached_time_count");
    reveal_strlit("INTEGER DEFAULT 0");
    reveal_strlit("uncached_time_sum");
    reveal_strlit("REAL DEFAULT 0");
    reveal_strlit("uncached_time_count");
    assert(defined(summary_columns::columns(), hourly_detail_kinds(), 9, "
                "@)
        =~= "
                hour_timestamp BIGINT NOT NULL,
                domain_group TEXT NOT NULL,
                query_count INTEGER DEFAULT 0,
                cached_count INTEGER DEFAULT 0,
                blocked_count INTEGER DEFAULT 0,
                cached_time_sum REAL DEFAULT 0,
                cached_time_count INTEGER DEFAULT 0,
                uncached_time_sum REAL DEFAULT 0,
                uncached_time_count INTEGER DEFAULT 0"@);
}

proof fn lemma_hourly_detail_text()
    ensures
        open::CREATE_HOURLY_DETAIL_SQL@ == creates(
            "domain_hourly_detail"@,
            summary_columns::columns(),
            hourly_detail_kinds(),
            "
                "@,
            ",
                PRIMARY KEY (hour_timestamp, domain_group)
            )"@,
        ),
{
    lemma_hourly_detail_columns();
    reveal_strlit("CREATE TABLE IF NOT EXISTS domain_hourly_detail (
                hour_timestamp BIGINT NOT NULL,
                domain_group TEXT NOT NULL,
                query_count INTEGER DEFAULT 0,
                cached_count INTEGER DEFAULT 0,
                blocked_count INTEGER DEFAULT 0,
                cached_time_sum REAL DEFAULT 0,
                cached_time_count INTEGER DEFAULT 0,
                uncached_time_sum REAL DEFAULT 0,
                uncached_time_count INTEGER DEFAULT 0,
                PRIMARY KEY (hour_timestamp, domain_group)
            )");
    reveal_strlit("CREATE TABLE IF NOT EXISTS ");
    reveal_strlit("domain_hourly_detail");
    reveal_strlit(" (");
    reveal_strlit("
                hour_timestamp BIGINT NOT NULL,
                domain_group TEXT NOT NULL,
                query_count INTEGER DEFAULT 0,
                cached_count INTEGER DEFAULT 0,
                blocked_count INTEGER DEFAULT 0,
                cached_time_sum REAL DEFAULT 0,
                cached_time_count INTEGER DEFAULT 0,
                uncached_time_sum REAL DEFAULT 0,
                uncached_time_count INTEGER DEFAULT 0");
    reveal_strlit(",
                PRIMARY KEY (hour_timestamp, domain_group)
            )");
    assert(open::CREATE_HOURLY_DETAIL_SQL@ =~= creates(
        "domain_hourly_detail"@,
        summary_columns::columns(),
        hourly_detail_kinds(),
        "
                "@,
        ",
                PRIMARY KEY (hour_timestamp, domain_group)
            )"@,
    ));
}

/// The kinds of the columns of `top_domain_list`.
pub open spec fn top_domains_kinds() -> Seq<Seq<char>> {
    seq![
        "TEXT PRIMARY KEY"@,
        "INTEGER DEFAULT 0"@,
        "BIGINT DEFAULT 0"@,
        "BIGINT DEFAULT 0"@,
    ]
}

/// The columns of `top_domain_list`.
pub open spec fn top_domains_columns() -> Seq<Seq<char>> {
    seq!["domain"@, "count"@, "timestamp_start"@, "timestamp_end"@]
}

proof fn lemma_top_domains_columns()
    ensures
        defined(top_domains_columns(), top_domains_kinds(), 4, "
                "@)
            == "
                domain TEXT PRIMARY KEY,
                count INTEGER DEFAULT 0,
                timestamp_start BIGINT DEFAULT 0,
                timestamp_end BIGINT DEFAULT 0"@,
{
    reveal_with_fuel(defined, 5);
    reveal_strlit("
                domain TEXT PRIMARY KEY,
                count INTEGER DEFAULT 0,
                timestamp_start BIGINT DEFAULT 0,
                timestamp_end BIGINT DEFAULT 0");
    reveal_strlit("
                ");
    reveal_strlit(",");
    reveal_strlit(" ");
    reveal_strlit("domain");
    reveal_strlit("TEXT PRIMARY KEY");
    reveal_strlit("count");
    reveal_strlit("INTEGER DEFAULT 0");
    reveal_strlit("timestamp_start");
    reveal_strlit("BIGINT DEFAULT 0");
    reveal_strlit("timestamp_end");
    assert(defined(top_domains_columns(), top_domains_kinds(), 4, "
                "@)
        =~= "
                domain TEXT PRIMARY KEY,
                count INTEGER DEFAULT 0,
                timestamp_start BIGINT DEFAULT 0,
                timestamp_end BIGINT DEFAULT 0"@);
}

proof fn lemma_top_domains_text()
    ensures
        open::CREATE_TOP_DOMAINS_SQL@ == creates(
            "top_domain_list"@,
            top_domains_columns(),
            top_domains_kinds(),
            "
                "@,
            "
            );"@,
        ),
{
    lemma_top_domains_columns();
    reveal_strlit("CREATE TABLE IF NOT EXISTS top_domain_list (
                domain TEXT PRIMARY KEY,
                count INTEGER DEFAULT 0,
                timestamp_start BIGINT DEFAULT 0,
                timestamp_end BIGINT DEFAULT 0
            );");
    reveal_strlit("CREATE TABLE IF NOT EXISTS ");
    reveal_strlit("top_domain_list");
    reveal_strlit(" (");
    reveal_strlit("
                domain TEXT PRIMARY KEY,
                count INTEGER DEFAULT 0,
                timestamp_start BIGINT DEFAULT 0,
                timestamp_end BIGINT DEFAULT 0");
    reveal_strlit("
            );");
    assert(open::CREATE_TOP_DOMAINS_SQL@ =~= creates(
        "top_domain_list"@,
        top_domains_columns(),
        top_domains_kinds(),
        "
                "@,
        "
            );"@,
    ));
}

/// The kinds of the columns of `top_client_list`.
pub open spec fn top_clients_kinds() -> Seq<Seq<char>> {
    seq![
        "TEXT PRIMARY KEY"@,
        "INTEGER DEFAULT 0"@,
        "BIGINT DEFAULT 0"@,
        "BIGINT DEFAULT 0"@,
    ]
}

/// The columns of `top_client_list`.
pub open spec fn top_clients_columns() -> Seq<Seq<char>> {
    seq!["client"@, "count"@, "timestamp_start"@, "timestamp_end"@]
}

proof fn lemma_top_clients_columns()
    ensures
        defined(top_clients_columns(), top_clients_kinds(), 4, "
                "@)
            == "
                client TEXT PRIMARY KEY,
                count INTEGER DEFAULT 0,
                timestamp_start BIGINT DEFAULT 0,
                timestamp_end BIGINT DEFAULT 0"@,
{
    reveal_with_fuel(defined, 5);
    reveal_strlit("
                client TEXT PRIMARY KEY,
                count INTEGER DEFAULT 0,
                timestamp_start BIGINT DEFAULT 0,
                timestamp_end BIGINT DEFAULT 0");
    reveal_strlit("
                ");
    reveal_strlit(",");
    reveal_strlit(" ");
    reveal_strlit("client");
    reveal_strlit("TEXT PRIMARY KEY");
    reveal_strlit("count");
    reveal_strlit("INTEGER DEFAULT 0");
    reveal_strlit("timestamp_start");
    reveal_strlit("BIGINT DEFAULT 0");
    reveal_strlit("timestamp_end");
    assert(defined(top_clients_columns(), top_clients_kinds(), 4, "
                "@)
        =~= "
                client TEXT PRIMARY KEY,
                count INTEGER DEFAULT 0,
                timestamp_start BIGINT DEFAULT 0,
                timestamp_end BIGINT DEFAULT 0"@);
}

proof fn lemma_top_clients_text()
    ensures
        open::CREATE_TOP_CLIENTS_SQL@ == creates(
            "top_client_list"@,
            top_clients_columns(),
            top_clients_kinds(),
            "
                "@,
            "
            );"@,
        ),
{
    lemma_top_clients_columns();
    reveal_strlit("CREATE TABLE IF NOT EXISTS top_client_list (
                client TEXT PRIMARY KEY,
                count INTEGER DEFAULT 0,
                timestamp_start BIGINT DEFAULT 0,
                timestamp_end BIGINT DEFAULT 0
            );");
    reveal_strlit("CREATE TABLE IF NOT EXISTS ");
    reveal_strlit("top_client_list");
    reveal_strlit(" (");
    reveal_strlit("
                client TEXT PRIMARY KEY,
                count INTEGER DEFAULT 0,
                timestamp_start BIGINT DEFAULT 0,
                timestamp_end BIGINT DEFAULT 0");
    reveal_strlit("
            );");
    assert(open::CREATE_TOP_CLIENTS_SQL@ =~= creates(
        "top_client_list"@,
        top_clients_columns(),
        top_clients_kinds(),
        "
                "@,
        "
            );"@,
    ));
}

/// The kinds of the columns of `client`.
pub open spec fn client_kinds() -> Seq<Seq<char>> {
    seq![
        "INTEGER PRIMARY KEY"@,
        "TEXT NOT NULL"@,
        "TEXT NOT NULL"@,
        "TEXT NOT NULL"@,
        "BIGINT NOT NULL"@,
    ]
}

proof fn lemma_client_columns()
    ensures
        defined(client_rows::columns(), client_kinds(), 5, "
            "@)
            == "
            id INTEGER PRIMARY KEY,
            client_ip TEXT NOT NULL,
            mac TEXT NOT NULL,
            hostname TEXT NOT NULL,
            last_query_timestamp BIGINT NOT NULL"@,
{
    reveal_with_fuel(defined, 6);
    reveal_strlit("
            id INTEGER PRIMARY KEY,
            client_ip TEXT NOT NULL,
            mac TEXT NOT NULL,
            hostname TEXT NOT NULL,
            last_query_timestamp BIGINT NOT NULL");
    reveal_strlit("
            ");
    reveal_strlit(",");
    reveal_strlit(" ");
    reveal_strlit("id");
    reveal_strlit("INTEGER PRIMARY KEY");
    reveal_strlit("client_ip");
    reveal_strlit("TEXT NOT NULL");
    reveal_strlit("mac");
    reveal_strlit("hostname");
    reveal_strlit("last_query_timestamp");
    reveal_strlit("BIGINT NOT NULL");
    assert(defined(client_rows::columns(), client_kinds(), 5, "
            "@)
        =~= "
            id INTEGER PRIMARY KEY,
            client_ip TEXT NOT NULL,
            mac TEXT NOT NULL,
            hostname TEXT NOT NULL,
            last_query_timestamp BIGINT NOT NULL"@);
}

proof fn lemma_client_text()
    ensures
        open::CREATE_CLIENT_SQL@ == "
        "@ + creates(
            "client"@,
            client_rows::columns(),
            client_kinds(),
            "
            "@,
            ",
            UNIQUE(client_ip, mac)
        )"@,
        ),
{
    lemma_client_columns();
    reveal_strlit("
        CREATE TABLE IF NOT EXISTS client (
            id INTEGER PRIMARY KEY,
            client_ip TEXT NOT NULL,
            mac TEXT NOT NULL,
            hostname TEXT NOT NULL,
            last_query_timestamp BIGINT NOT NULL,
            UNIQUE(client_ip, mac)
        )");
    reveal_strlit("CREATE TABLE IF NOT EXISTS ");
    reveal_strlit("client");
    reveal_strlit(" (");
    reveal_strlit("
            id INTEGER PRIMARY KEY,
            client_ip TEXT NOT NULL,
            mac TEXT NOT NULL,
            hostname TEXT NOT NULL,
            last_query_timestamp BIGINT NOT NULL");
    reveal_strlit(",
            UNIQUE(client_ip, mac)
        )");
    reveal_strlit("
        ");
    assert(open::CREATE_CLIENT_SQL@ =~= "
        "@ + creates(
        "client"@,
        client_rows::columns(),
        client_kinds(),
        "
            "@,
        ",
            UNIQUE(client_ip, mac)
        )"@,
    ));
}

/// The kinds of the columns of `config`.
pub open spec fn config_kinds() -> Seq<Seq<char>> {
    seq![
        "TEXT PRIMARY KEY"@,
        "TEXT NOT NULL"@,
    ]
}

/// The columns of `config`.
pub open spec fn config_columns() -> Seq<Seq<char>> {
    seq!["key"@, "value"@]
}

proof fn lemma_config_columns()
    ensures
        defined(config_columns(), config_kinds(), 2, "
                "@)
            == "
                key TEXT PRIMARY KEY,
                value TEXT NOT NULL"@,
{
    reveal_with_fuel(defined, 3);
    reveal_strlit("
                key TEXT PRIMARY KEY,
                value TEXT NOT NULL");
    reveal_strlit("
                ");
    reveal_strlit(",");
    reveal_strlit(" ");
    reveal_strlit("key");
    reveal_strlit("TEXT PRIMARY KEY");
    reveal_strlit("value");
    reveal_strlit("TEXT NOT NULL");
    assert(defined(config_columns(), config_kinds(), 2, "
                "@)
        =~= "
                key TEXT PRIMARY KEY,
                value TEXT NOT NULL"@);
}

proof fn lemma_config_text()
    ensures
        open::CREATE_CONFIG_SQL@ == creates(
            "config"@,
            config_columns(),
            config_kinds(),
            "
                "@,
            "
            )"@,
        ),
{
    lemma_config_columns();
    reveal_strlit("CREATE TABLE IF NOT EXISTS config (
                key TEXT PRIMARY KEY,
                value TEXT NOT NULL
            )");
    reveal_strlit("CREATE TABLE IF NOT EXISTS ");
    reveal_strlit("config");
    reveal_strlit(" (");
    reveal_strlit("
                key TEXT PRIMARY KEY,
                value TEXT NOT NULL");
    reveal_strlit("
            )");
    assert(open::CREATE_CONFIG_SQL@ =~= creates(
        "config"@,
        config_columns(),
        config_kinds(),
        "
                "@,
        "
            )"@,
    ));
}

/// The kinds of the columns of `status_data`.
pub open spec fn status_data_kinds() -> Seq<Seq<char>> {
    seq![
        "TEXT PRIMARY KEY"@,
        "TEXT NOT NULL"@,
    ]
}

/// The columns of `status_data`.
pub open spec fn status_data_columns() -> Seq<Seq<char>> {
    seq!["key"@, "value"@]
}

proof fn lemma_status_data_columns()
    ensures
        defined(status_data_columns(), status_data_kinds(), 2, "
                "@)
            == "
                key TEXT PRIMARY KEY,
                value TEXT NOT NULL"@,
{
    reveal_with_fuel(defined, 3);
    reveal_strlit("
                key TEXT PRIMARY KEY,
                value TEXT NOT NULL");
    reveal_strlit("
                ");
    reveal_strlit(",");
    reveal_strlit(" ");
    reveal_strlit("key");
    reveal_strlit("TEXT PRIMARY KEY");
    reveal_strlit("value");
    reveal_strlit("TEXT NOT NULL");
    assert(defined(status_data_columns(), status_data_kinds(), 2, "
                "@)
        =~= "
                key TEXT PRIMARY KEY,
                value TEXT NOT NULL"@);
}

proof fn lemma_status_data_text()
    ensures
        open::CREATE_STATUS_DATA_SQL@ == creates(
            "status_data"@,
            status_data_columns(),
            status_data_kinds(),
            "
                "@,
            "
            )"@,
        ),
{
    lemma_status_data_columns();
    reveal_strlit("CREATE TABLE IF NOT EXISTS status_data (
                key TEXT PRIMARY KEY,
                value TEXT NOT NULL
            )");
    reveal_strlit("CREATE TABLE IF NOT EXISTS ");
    reveal_strlit("status_data");
    reveal_strlit(" (");
    reveal_strlit("
                key TEXT PRIMARY KEY,
                value TEXT NOT NULL");
    reveal_strlit("
            )");
    assert(open::CREATE_STATUS_DATA_SQL@ =~= creates(
        "status_data"@,
        status_data_columns(),
        status_data_kinds(),
        "
                "@,
        "
            )"@,
    ));
}

/// The kinds of the columns of `schema_version`.
pub open spec fn schema_version_kinds() -> Seq<Seq<char>> {
    seq![
        "INTEGER PRIMARY KEY"@,
    ]
}

/// The columns of `schema_version`.
pub open spec fn schema_version_columns() -> Seq<Seq<char>> {
    seq!["version"@]
}

proof fn lemma_schema_version_columns()
    ensures
        defined(schema_version_columns(), schema_version_kinds(), 1, "
                "@)
            == "
                version INTEGER PRIMARY KEY"@,
{
    reveal_with_fuel(defined, 2);
    reveal_strlit("
                version INTEGER PRIMARY KEY");
    reveal_strlit("
                ");
    reveal_strlit(",");
    reveal_strlit(" ");
    reveal_strlit("version");
    reveal_strlit("INTEGER PRIMARY KEY");
    assert(defined(schema_version_columns(), schema_version_kinds(), 1, "
                "@)
        =~= "
                version INTEGER PRIMARY KEY"@);
}

proof fn lemma_schema_version_text()
    ensures
        open::CREATE_SCHEMA_VERSION_SQL@ == creates(
            "schema_version"@,
            schema_version_columns(),
            schema_version_kinds(),
            "
                "@,
            "
            )"@,
        ),
{
    lemma_schema_version_columns();
    reveal_strlit("CREATE TABLE IF NOT EXISTS schema_version (
                version INTEGER PRIMARY KEY
            )");
    reveal_strlit("CREATE TABLE IF NOT EXISTS ");
    reveal_strlit("schema_version");
    reveal_strlit(" (");
    reveal_strlit("
                version INTEGER PRIMARY KEY");
    reveal_strlit("
            )");
    assert(open::CREATE_SCHEMA_VERSION_SQL@ =~= creates(
        "schema_version"@,
        schema_version_columns(),
        schema_version_kinds(),
        "
                "@,
        "
            )"@,
    ));
}

/// The tables of a new store have the columns that its statements write and
/// read. Counts are found by their time, summaries by hour and group, clients by
/// address and hardware address, top lists and settings by what they name.
pub proof fn law_tables_have_the_columns_of_their_rows()
    ensures
        open::CREATE_DOMAIN_SQL@ == creates(
            "domain"@,
            log_columns::read_columns(),
            domain_kinds(),
            "
                "@,
            "
            )"@,
        ),
        open::CREATE_HOURLY_COUNT_SQL@ == creates(
            "domain_hourly_count"@,
            hourly_count_columns(),
            hourly_count_kinds(),
            "
                "@,
            "
            );"@,
        ),
        open::CREATE_DAILY_COUNT_SQL@ == creates(
            "domain_daily_count"@,
            daily_count_columns(),
            daily_count_kinds(),
            "
                "@,
            "
            );"@,
        ),
        open::CREATE_HOURLY_DETAIL_SQL@ == creates(
            "domain_hourly_detail"@,
            summary_columns::columns(),
            hourly_detail_kinds(),
            "
                "@,
            ",
                PRIMARY KEY (hour_timestamp, domain_group)
            )"@,
        ),
        open::CREATE_TOP_DOMAINS_SQL@ == creates(
            "top_domain_list"@,
            top_domains_columns(),
            top_domains_kinds(),
            "
                "@,
            "
            );"@,
        ),
        open::CREATE_TOP_CLIENTS_SQL@ == creates(
            "top_client_list"@,
            top_clients_columns(),
            top_clients_kinds(),
            "
                "@,
            "
            );"@,
        ),
        open::CREATE_CLIENT_SQL@ == "
        "@ + creates(
            "client"@,
            client_rows::columns(),
            client_kinds(),
            "
            "@,
            ",
            UNIQUE(client_ip, mac)
        )"@,
        ),
        open::CREATE_CONFIG_SQL@ == creates(
            "config"@,
            config_columns(),
            config_kinds(),
            "
                "@,
            "
            )"@,
        ),
        open::CREATE_STATUS_DATA_SQL@ == creates(
            "status_data"@,
            status_data_columns(),
            status_data_kinds(),
            "
                "@,
            "
            )"@,
        ),
        open::CREATE_SCHEMA_VERSION_SQL@ == creates(
            "schema_version"@,
            schema_version_columns(),
            schema_version_kinds(),
            "
                "@,
            "
            )"@,
        ),
{
    lemma_domain_text();
    lemma_hourly_count_text();
    lemma_daily_count_text();
    lemma_hourly_detail_text();
    lemma_top_domains_text();
    lemma_top_clients_text();
    lemma_client_text();
    lemma_config_text();
    lemma_status_data_text();
    lemma_schema_version_text();
}

/// A statement that creates an index on a column of a table.
pub open spec fn creates_index(table: Seq<char>, column: Seq<char>) -> Seq<char> {
    "CREATE INDEX IF NOT EXISTS idx_"@ + table + "_"@ + column + " ON "@ + table + " ("@ + column
        + ")"@
}

/// The log can be searched by time and by client, and the clients by the time
/// of their last query.
pub proof fn law_indices_are_on_their_columns()
    ensures
        open::CREATE_DOMAIN_TIME_INDEX_SQL@ == creates_index("domain"@, "timestamp"@),
        open::CREATE_DOMAIN_CLIENT_INDEX_SQL@ == creates_index("domain"@, "client"@),
        open::CREATE_CLIENT_TIME_INDEX_SQL@ == creates_index("client"@, "last_query_timestamp"@),
{
    reveal_strlit("CREATE INDEX IF NOT EXISTS idx_");
    reveal_strlit("_");
    reveal_strlit(" ON ");
    reveal_strlit(" (");
    reveal_strlit(")");
    assert(open::CREATE_DOMAIN_TIME_INDEX_SQL@ =~= creates_index("domain"@, "timestamp"@)) by {
        reveal_strlit("CREATE INDEX IF NOT EXISTS idx_domain_timestamp ON domain (timestamp)");
        reveal_strlit("domain");
        reveal_strlit("timestamp");
    }
    assert(open::CREATE_DOMAIN_CLIENT_INDEX_SQL@ =~= creates_index("domain"@, "client"@)) by {
        reveal_strlit("CREATE INDEX IF NOT EXISTS idx_domain_client ON domain (client)");
        reveal_strlit("domain");
        reveal_strlit("client");
    }
    assert(open::CREATE_CLIENT_TIME_INDEX_SQL@ =~= creates_index("client"@, "last_query_timestamp"@)) by {
        reveal_strlit("CREATE INDEX IF NOT EXISTS idx_client_last_query_timestamp ON client (last_query_timestamp)");
        reveal_strlit("client");
        reveal_strlit("last_query_timestamp");
    }
}

/// The statement is one of those that set up a new store.
pub open spec fn sets_up(version: i32, text: Seq<char>, i: int) -> bool {
    0 <= i < open::TABLE_STATEMENTS && open::table_command(version, i) == sql::bare(text)
}

/// A new store gets every table, each index after its table, and last of all
/// its schema version, so that a store that has one is complete.
pub proof fn law_new_store_is_set_up_as_a_whole(version: i32)
    ensures
        exists|i: int, j: int, k: int|
            #![trigger sets_up(version, open::CREATE_DOMAIN_SQL@, i), sets_up(version, open::CREATE_DOMAIN_TIME_INDEX_SQL@, j), sets_up(version, open::CREATE_DOMAIN_CLIENT_INDEX_SQL@, k)]
            i < j && i < k && sets_up(version, open::CREATE_DOMAIN_SQL@, i) && sets_up(
                version,
                open::CREATE_DOMAIN_TIME_INDEX_SQL@,
                j,
            ) && sets_up(version, open::CREATE_DOMAIN_CLIENT_INDEX_SQL@, k),
        exists|i: int, j: int|
            #![trigger sets_up(version, open::CREATE_CLIENT_SQL@, i), sets_up(version, open::CREATE_CLIENT_TIME_INDEX_SQL@, j)]
            i < j && sets_up(version, open::CREATE_CLIENT_SQL@, i) && sets_up(
                version,
                open::CREATE_CLIENT_TIME_INDEX_SQL@,
                j,
            ),
        exists|i: int| #[trigger] sets_up(version, open::CREATE_HOURLY_COUNT_SQL@, i),
        exists|i: int| #[trigger] sets_up(version, open::CREATE_DAILY_COUNT_SQL@, i),
        exists|i: int| #[trigger] sets_up(version, open::CREATE_HOURLY_DETAIL_SQL@, i),
        exists|i: int| #[trigger] sets_up(version, open::CREATE_TOP_DOMAINS_SQL@, i),
        exists|i: int| #[trigger] sets_up(version, open::CREATE_TOP_CLIENTS_SQL@, i),
        exists|i: int| #[trigger] sets_up(version, open::CREATE_CONFIG_SQL@, i),
        exists|i: int| #[trigger] sets_up(version, open::CREATE_STATUS_DATA_SQL@, i),
        ({
            let last = open::table_command(version, open::TABLE_STATEMENTS - 1);
            &&& last.sql == "INSERT INTO "@ + "schema_version"@ + " (version) VALUES (?)"@
            &&& last.params == seq![sql::SqlValue::Integer(version as int)]
        }),
{
    assert(sets_up(version, open::CREATE_DOMAIN_SQL@, 0));
    assert(sets_up(version, open::CREATE_DOMAIN_TIME_INDEX_SQL@, 1));
    assert(sets_up(version, open::CREATE_DOMAIN_CLIENT_INDEX_SQL@, 2));
    assert(sets_up(version, open::CREATE_HOURLY_COUNT_SQL@, 3));
    assert(sets_up(version, open::CREATE_DAILY_COUNT_SQL@, 4));
    assert(sets_up(version, open::CREATE_HOURLY_DETAIL_SQL@, 5));
    assert(sets_up(version, open::CREATE_TOP_DOMAINS_SQL@, 6));
    assert(sets_up(version, open::CREATE_TOP_CLIENTS_SQL@, 7));
    assert(sets_up(version, open::CREATE_CLIENT_SQL@, 8));
    assert(sets_up(version, open::CREATE_CLIENT_TIME_INDEX_SQL@, 9));
    assert(sets_up(version, open::CREATE_CONFIG_SQL@, 10));
    assert(sets_up(version, open::CREATE_STATUS_DATA_SQL@, 11));
    assert("INSERT INTO schema_version (version) VALUES (?)"@ =~= "INSERT INTO "@
        + "schema_version"@ + " (version) VALUES (?)"@) by {
        reveal_strlit("INSERT INTO schema_version (version) VALUES (?)");
        reveal_strlit("INSERT INTO ");
        reveal_strlit("schema_version");
        reveal_strlit(" (version) VALUES (?)");
    }
}

} // verus!
