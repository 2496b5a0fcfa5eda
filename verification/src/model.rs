//! Rows and request parameters of the store.

use vstd::prelude::*;

verus! {

/// A client that has sent queries.
#[derive(Debug, Clone)]
pub struct ClientData {
    pub id: u32,
    pub hostname: String,
    pub client_ip: String,
    pub mac: String,
    pub last_query_timestamp: u64,
}

/// How many queries a client sent in a span of time.
#[derive(Debug, Clone)]
pub struct ClientQueryCount {
    pub client_ip: String,
    pub count: u32,
    pub timestamp_start: u64,
    pub timestamp_end: u64,
}

/// How often a domain was queried in a span of time.
#[derive(Debug, Clone)]
pub struct DomainQueryCount {
    pub domain: String,
    pub count: u32,
    pub timestamp_start: u64,
    pub timestamp_end: u64,
}

/// The number of queries of one hour.
#[derive(Debug, Clone)]
pub struct HourlyQueryCountItem {
    pub hour: String,
    pub query_count: u32,
}

/// The numbers of queries of the past hours.
#[derive(Debug, Clone)]
pub struct HourlyQueryCount {
    pub query_timestamp: u64,
    pub hourly_query_count: Vec<HourlyQueryCountItem>,
}

/// The number of queries of one day.
#[derive(Debug, Clone)]
pub struct DailyQueryCountItem {
    pub day: String,
    pub query_count: u32,
}

/// The numbers of queries of the past days.
#[derive(Debug, Clone)]
pub struct DailyQueryCount {
    pub query_timestamp: u64,
    pub daily_query_count: Vec<DailyQueryCountItem>,
}

/// The queries of one domain group within an hour.
#[derive(Debug, Clone)]
pub struct DomainGroupHourlyStat {
    pub domain_group: String,
    pub query_count: u32,
    pub cached_count: u32,
}

/// One logged query.
#[derive(Debug, Clone)]
pub struct DomainData {
    pub id: u64,
    pub timestamp: u64,
    pub domain: String,
    pub domain_type: u32,
    pub client: String,
    pub domain_group: String,
    pub reply_code: u16,
    pub query_time: i32,
    /// The ping time in milliseconds, as its IEEE-754 bit pattern.
    pub ping_time: u64,
    pub is_blocked: bool,
    pub is_cached: bool,
}

/// A page of logged queries.
#[derive(Debug, Clone)]
pub struct QueryDomainListResult {
    pub domain_list: Vec<DomainData>,
    pub total_count: u64,
    pub step_by_cursor: bool,
}

/// Where a walk through the query log stands.
#[derive(Debug, Clone)]
pub struct DomainListGetParamCursor {
    pub id: Option<u64>,
    pub total_count: u64,
    pub direction: String,
}

/// A page of clients.
#[derive(Debug, Clone)]
pub struct QueryClientListResult {
    pub client_list: Vec<ClientData>,
    pub total_count: u64,
    pub step_by_cursor: bool,
}

/// Where a walk through the client list stands.
#[derive(Debug, Clone)]
pub struct ClientListGetParamCursor {
    pub id: Option<u64>,
    pub total_count: u64,
    pub direction: String,
}

/// Which clients to list, and how.
#[derive(Debug, Clone)]
pub struct ClientListGetParam {
    pub id: Option<u64>,
    pub order: Option<String>,
    pub page_num: u64,
    pub page_size: u64,
    pub client_ip: Option<String>,
    pub mac: Option<String>,
    pub hostname: Option<String>,
    pub timestamp_before: Option<u64>,
    pub timestamp_after: Option<u64>,
    pub cursor: Option<ClientListGetParamCursor>,
}

/// The request for the first page of clients.
pub open spec fn first_clients() -> ClientListGetParam {
    ClientListGetParam {
        id: None,
        order: None,
        page_num: 1,
        page_size: 10,
        client_ip: None,
        mac: None,
        hostname: None,
        timestamp_before: None,
        timestamp_after: None,
        cursor: None,
    }
}

impl ClientListGetParam {
    /// The first page of ten clients, with no filter.
    pub fn new() -> (r: Self)
        ensures
            r == first_clients(),
    {
        ClientListGetParam {
            id: None,
            page_num: 1,
            order: None,
            page_size: 10,
            client_ip: None,
            mac: None,
            hostname: None,
            timestamp_before: None,
            timestamp_after: None,
            cursor: None,
        }
    }
}

/// Which logged queries to list, and how.
#[derive(Debug, Clone)]
pub struct DomainListGetParam {
    pub id: Option<u64>,
    pub order: Option<String>,
    pub page_num: u64,
    pub page_size: u64,
    pub domain: Option<String>,
    pub domain_filter_mode: Option<String>,
    pub domain_type: Option<u32>,
    pub client: Option<String>,
    /// Resolved client filter: every IP a hostname/localhost filter value
    /// expands to, matched with `client IN (...)`. Takes precedence over
    /// `client` when set.
    pub client_ips: Option<Vec<String>>,
    pub domain_group: Option<String>,
    pub reply_code: Option<u16>,
    pub timestamp_before: Option<u64>,
    pub timestamp_after: Option<u64>,
    pub is_blocked: Option<bool>,
    pub is_cached: Option<bool>,
    pub cursor: Option<DomainListGetParamCursor>,
}

/// The request for the first page of logged queries.
pub open spec fn first_domains() -> DomainListGetParam {
    DomainListGetParam {
        id: None,
        order: None,
        page_num: 1,
        page_size: 10,
        domain: None,
        domain_filter_mode: None,
        domain_type: None,
        client: None,
        client_ips: None,
        domain_group: None,
        reply_code: None,
        timestamp_before: None,
        timestamp_after: None,
        is_blocked: None,
        is_cached: None,
        cursor: None,
    }
}

impl DomainListGetParam {
    /// The first page of ten logged queries, with no filter.
    pub fn new() -> (r: Self)
        ensures
            r == first_domains(),
    {
        DomainListGetParam {
            id: None,
            page_num: 1,
            order: None,
            page_size: 10,
            domain: None,
            domain_filter_mode: None,
            domain_type: None,
            client: None,
            client_ips: None,
            domain_group: None,
            reply_code: None,
            timestamp_before: None,
            timestamp_after: None,
            is_blocked: None,
            is_cached: None,
            cursor: None,
        }
    }
}

} // verus!
