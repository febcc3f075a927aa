//! Verified core of the Aster hotel-supplies desktop application: the
//! business rules, pagination cursors, rate limiting and pairing state that
//! the desktop shell drives.

pub mod error;
pub mod text;
pub mod write_limits;
pub mod clock;
pub mod security_rate_limiter;
pub mod pagination;
pub mod codec;
pub mod remote_pagination;
pub mod report_pagination;
pub mod ids;
pub mod pairing;
pub mod stock_rules;
pub mod master_data;
pub mod sessions;
pub mod proxy;
pub mod stock_queries;
pub mod report_filters;
pub mod backup_records;
pub mod credential_store;
pub mod credentials;
pub mod secrets;
pub mod app_paths;
pub mod keyset_pages;
pub mod master_records;
pub mod authentication;
pub mod stock_documents;
pub mod approvals;
pub mod master_listings;
pub mod audit_logs;
