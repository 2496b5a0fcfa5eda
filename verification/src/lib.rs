//! Query-log store and client-name cache of the SmartDNS dashboard.

pub mod client_list;
pub mod client_rows;
pub mod clients;
pub mod completeness;
pub mod count_statements;
pub mod db;
pub mod detail;
pub mod domain_filter;
pub mod domain_list;
pub mod error;
pub mod filters;
pub mod hostname;
pub mod hourly;
pub mod line_laws;
pub mod lines;
pub mod log_columns;
pub mod model;
pub mod name_files;
pub mod name_map;
pub mod open;
pub mod opening;
pub mod paging;
pub mod query_log;
pub mod relational;
pub mod reload;
pub mod report;
pub mod report_counts;
pub mod report_run;
pub mod rows;
pub mod same_report;
pub mod schema;
pub mod sql;
pub mod statistics;
pub mod summary;
pub mod summary_columns;
pub mod text;
pub mod window;
