use std::time::Duration;

use vstd::prelude::*;

use crate::config::{PreparedConfig, RecordType};
use crate::error::{concat3, Error, ImplementationError};
use crate::policy::{
    admitted_by_allowlist, blocked_by_blocklist, enforce, policy_refusal, select_timeout,
    selected_timeout, type_allowed,
};
use crate::text::{
    chars_of, is_white_space, lemma_trimmed_name_start, trim, trim_end_dots, trimmed_name_bounds,
};

verus! {

/// What `Duration::from_millis` returns for a number of milliseconds.
pub uninterp spec fn duration_from_millis(ms: u64) -> Duration;

/// `Duration::from_millis`: the duration of `ms` milliseconds.
#[verifier::external_body]
fn millis(ms: u64) -> (duration: Duration)
    ensures
        duration == duration_from_millis(ms),
{
    Duration::from_millis(ms)
}

/// `Duration` is `Copy`: its `clone` returns the same duration.
pub assume_specification[ <Duration as Clone>::clone ](duration: &Duration) -> (copy: Duration)
    ensures
        copy == *duration,
;

/// A query name in normal form: white space around it and trailing dots
/// removed.
pub open spec fn normalized_name(name: Seq<char>) -> Seq<char> {
    trim_end_dots(trim(name))
}

/// A query name in normal form does not start with white space, so the
/// zone laws about child names apply to it.
pub proof fn normalized_name_starts_without_white_space(name: Seq<char>)
    ensures
        normalized_name(name).len() > 0 ==> !is_white_space(normalized_name(name)[0]),
{
    lemma_trimmed_name_start(name);
}

/// Brings a query name into normal form; a name that is empty in normal
/// form is an invalid request.
fn normalize_name(name: String) -> (normalized: Result<String, Error>)
    ensures
        match normalized {
            Ok(n) => n@ == normalized_name(name@) && n@.len() > 0,
            Err(e) => normalized_name(name@).len() == 0 && (e matches Error::InvalidRequest(detail)
                && detail@ == "name required"@),
        },
{
    let chars = chars_of(name.as_str());
    let (lo, hi) = trimmed_name_bounds(&chars);
    if lo == hi {
        return Err(Error::InvalidRequest(String::from_str("name required")));
    }
    let normalized = name.as_str().substring_char(lo, hi).to_owned();
    Ok(normalized)
}

/// Request body for the `dns_query` implementation.
#[derive(Clone, Debug, PartialEq, Eq)]
pub struct DnsQueryRequest {
    /// Domain name to query.
    pub name: String,
    /// DNS RR type string.
    pub record_type: String,
    /// Per-query timeout override in milliseconds.
    pub timeout_ms: Option<u64>,
}

/// Validated DNS query request.
#[derive(Clone, Debug, PartialEq, Eq)]
pub struct PreparedRequest {
    /// Normalized query name.
    pub name: String,
    /// Parsed RR type.
    pub record_type: RecordType,
    /// Per-call timeout.
    pub timeout: Duration,
}

impl DnsQueryRequest {
    /// Why the request is refused, checked in this order: an empty name, an
    /// unrecognised record type, then the endpoint policy. `None` when it is
    /// accepted.
    pub open spec fn refusal(&self, config: PreparedConfig, parsed_type: Option<RecordType>) -> Option<
        Seq<char>,
    > {
        let name = normalized_name(self.name@);
        if name.len() == 0 {
            Some("name required"@)
        } else {
            match parsed_type {
                None => Some("unknown record type '"@ + self.record_type@ + "'"@),
                Some(record_type) => policy_refusal(config, name, record_type),
            }
        }
    }

    /// The prepared request carries the normalized name, the record type and
    /// the selected timeout.
    pub open spec fn prepared_as(
        &self,
        config: PreparedConfig,
        parsed_type: Option<RecordType>,
        prepared: PreparedRequest,
    ) -> bool {
        &&& prepared.name@ == normalized_name(self.name@)
        &&& Some(prepared.record_type) == parsed_type
        &&& prepared.timeout == duration_from_millis(
            selected_timeout(config.timeout_default(), self.timeout_ms),
        )
    }

    /// Validates the request shape and the endpoint policy without any DNS
    /// I/O. `parsed_type` is the record type that `record_type` was
    /// recognised as, or `None` when it names no known type.
    pub fn prepare(self, config: &PreparedConfig, parsed_type: Option<RecordType>) -> (prepared:
        Result<PreparedRequest, ImplementationError>)
        ensures
            prepared is Ok <==> self.refusal(*config, parsed_type) is None,
            match prepared {
                Ok(request) => self.prepared_as(*config, parsed_type, request),
                Err(e) => e matches ImplementationError::InvalidRequest { detail } && Some(detail@)
                    == self.refusal(*config, parsed_type),
            },
            // The policy gates: an accepted request has an allowed type, a name
            // inside the zone allowlist, and a name outside the zone blocklist,
            // which overrides the allowlist.
            prepared is Ok ==> type_allowed(config.allowed_type_list(), parsed_type.unwrap())
                && admitted_by_allowlist(normalized_name(self.name@), config.allowlist())
                && !blocked_by_blocklist(normalized_name(self.name@), config.blocklist()),
            blocked_by_blocklist(normalized_name(self.name@), config.blocklist()) ==> prepared is Err,
    {
        match self.prepare_inner(config, parsed_type) {
            Ok(request) => Ok(request),
            Err(e) => Err(ImplementationError::from(e)),
        }
    }

    /// Validates the request shape and the endpoint policy.
    pub fn prepare_inner(self, config: &PreparedConfig, parsed_type: Option<RecordType>) -> (prepared:
        Result<PreparedRequest, Error>)
        ensures
            prepared is Ok <==> self.refusal(*config, parsed_type) is None,
            match prepared {
                Ok(request) => self.prepared_as(*config, parsed_type, request),
                Err(e) => e matches Error::InvalidRequest(detail) && Some(detail@) == self.refusal(
                    *config,
                    parsed_type,
                ),
            },
    {
        let ghost request = self;
        let name = match normalize_name(self.name) {
            Ok(n) => n,
            Err(e) => {
                return Err(e);
            },
        };
        let record_type = match parsed_type {
            Some(record_type) => record_type,
            None => {
                return Err(
                    Error::InvalidRequest(
                        concat3("unknown record type '", self.record_type.as_str(), "'"),
                    ),
                );
            },
        };
        match enforce(config, name.as_str(), &record_type) {
            Ok(()) => {},
            Err(e) => {
                return Err(e);
            },
        }
        let timeout_ms = select_timeout(config.default_timeout_ms(), self.timeout_ms);
        Ok(PreparedRequest { name, record_type, timeout: millis(timeout_ms) })
    }
}

} // verus!
