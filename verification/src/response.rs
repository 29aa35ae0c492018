use vstd::prelude::*;

use crate::error::{classifies, reported, Error, ImplementationError, ResolverError};

verus! {

/// A DNS record as the resolver returned it.
#[derive(Clone, Debug, PartialEq, Eq)]
pub struct DnsRecord {
    /// Owner name in DNS presentation form.
    pub name: String,
    /// Name of the record's RR type.
    pub record_type_name: String,
    /// TTL in seconds.
    pub ttl: u32,
    /// RDATA in presentation form.
    pub data: String,
}

/// DNS record in presentation form.
#[derive(Clone, Debug, PartialEq, Eq)]
pub struct DnsRecordResponse {
    /// DNS RR type.
    pub record_type: String,
    /// Owner name in DNS presentation form.
    pub name: String,
    /// TTL in seconds.
    pub ttl: u32,
    /// RDATA in presentation form.
    pub data: String,
}

/// The response entry for a resolved record: its type name, owner name,
/// TTL and data, unchanged.
pub open spec fn record_response(record: DnsRecord) -> DnsRecordResponse {
    DnsRecordResponse {
        record_type: record.record_type_name,
        name: record.name,
        ttl: record.ttl,
        data: record.data,
    }
}

/// A response entry carries the resolved record's type name, owner name,
/// TTL and data unchanged.
pub proof fn record_response_keeps_every_field(record: DnsRecord)
    ensures
        record_response(record).record_type == record.record_type_name,
        record_response(record).name == record.name,
        record_response(record).ttl == record.ttl,
        record_response(record).data == record.data,
{
}

impl From<DnsRecord> for DnsRecordResponse {
    fn from(value: DnsRecord) -> (response: Self) {
        DnsRecordResponse {
            record_type: value.record_type_name,
            name: value.name,
            ttl: value.ttl,
            data: value.data,
        }
    }
}

impl vstd::std_specs::convert::FromSpecImpl<DnsRecord> for DnsRecordResponse {
    open spec fn obeys_from_spec() -> bool {
        true
    }

    open spec fn from_spec(v: DnsRecord) -> Self {
        record_response(v)
    }
}

/// Response body for `dns_query`.
#[derive(Clone, Debug, PartialEq, Eq)]
pub struct DnsQueryResponse {
    /// DNS records returned by the resolver.
    pub records: Vec<DnsRecordResponse>,
}

/// How the resolver call of one query ended.
#[derive(Clone, Debug, PartialEq, Eq)]
pub enum QueryOutcome {
    /// The resolver answered with these records.
    Answered(Vec<DnsRecord>),
    /// The resolver reported a failure.
    Failed(ResolverError),
    /// The call did not finish within the selected timeout.
    TimedOut,
}

impl DnsQueryResponse {
    /// The response for the resolved records, in the resolver's order.
    pub fn from_records(records: Vec<DnsRecord>) -> (response: Self)
        ensures
            response.records@ == records@.map_values(|r: DnsRecord| record_response(r)),
            response.records@.len() == records@.len(),
            forall|i: int|
                0 <= i < records@.len() ==> {
                    &&& (#[trigger] response.records@[i]).record_type == records@[i].record_type_name
                    &&& response.records@[i].name == records@[i].name
                    &&& response.records@[i].ttl == records@[i].ttl
                    &&& response.records@[i].data == records@[i].data
                },
    {
        let n = records.len();
        let mut out: Vec<DnsRecordResponse> = Vec::new();
        let mut rest = records;
        let ghost input = rest@;
        let mut i: usize = 0;
        while i < n
            invariant
                n == input.len(),
                i <= n,
                rest@ == input.skip(i as int),
                out@ == input.take(i as int).map_values(|r: DnsRecord| record_response(r)),
            decreases n - i,
        {
            let record = rest.remove(0);
            assert(record == input[i as int]);
            out.push(DnsRecordResponse::from(record));
            assert(input.take(i + 1) =~= input.take(i as int).push(input[i as int]));
            assert(out@ =~= input.take(i + 1).map_values(|r: DnsRecord| record_response(r)));
            assert(rest@ =~= input.skip(i + 1));
            i = i + 1;
        }
        assert(input.take(n as int) =~= input);
        DnsQueryResponse { records: out }
    }

    /// The result of one query once the resolver call has ended: the
    /// records in presentation form, `UpstreamTimeout` when the call timed
    /// out, or the report of the resolver failure.
    pub fn from_outcome(outcome: QueryOutcome) -> (result: Result<Self, ImplementationError>)
        ensures
            match outcome {
                QueryOutcome::Answered(records) => result matches Ok(response) && response.records@
                    == records@.map_values(|r: DnsRecord| record_response(r)),
                QueryOutcome::Failed(error) => result matches Err(e) && exists|classified: Error|
                    e == reported(classified) && classifies(error, classified),
                QueryOutcome::TimedOut => result == Err::<Self, _>(ImplementationError::UpstreamTimeout),
            },
    {
        match outcome {
            QueryOutcome::Answered(records) => Ok(DnsQueryResponse::from_records(records)),
            QueryOutcome::Failed(error) => Err(ImplementationError::from(Error::from_resolver(error))),
            QueryOutcome::TimedOut => Err(ImplementationError::UpstreamTimeout),
        }
    }
}

} // verus!
