//! DNS query connector implementation for Philharmonic: the endpoint policy
//! gates (record-type allowlist, zone allowlist and blocklist, timeout
//! selection), the normalization of config and request values, and the
//! mapping of resolver outcomes to connector errors and responses. Denied
//! queries are refused before any resolver call is made.

pub mod config;
pub mod error;
pub mod policy;
pub mod request;
pub mod response;
pub mod text;

pub use crate::config::{DnsConfig, PreparedConfig, RecordType};
pub use crate::error::{Error, ImplementationError, ResolverError};
pub use crate::policy::{
    clamp_timeout_ms, select_timeout, zone_matches, DEFAULT_TIMEOUT_MS, MAX_TIMEOUT_MS,
    MIN_TIMEOUT_MS,
};
pub use crate::request::{DnsQueryRequest, PreparedRequest};
pub use crate::response::{DnsQueryResponse, DnsRecord, DnsRecordResponse, QueryOutcome};
