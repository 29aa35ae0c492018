use std::time::Duration;

use philharmonic_connector_impl_dns::{
    clamp_timeout_ms, zone_matches, DnsConfig, DnsQueryRequest, Error, ImplementationError,
    RecordType, ResolverError, DEFAULT_TIMEOUT_MS, MAX_TIMEOUT_MS, MIN_TIMEOUT_MS,
};

fn a_record() -> Option<RecordType> {
    Some(RecordType {
        code: 1,
        name: "A".to_owned(),
    })
}

#[test]
fn resolver_rcodes_map_to_upstream_error_statuses() {
    // RCODEs: NXDomain = 3, ServFail = 2, NotImp = 4, Refused = 5.
    let cases = [(3u16, 3u16, "NXDOMAIN"), (2, 2, "SERVFAIL"), (4, 4, "NOTIMP"), (5, 5, "REFUSED")];

    for (response_code, status, label) in cases {
        let error = Error::from_resolver(ResolverError::Lookup {
            name: "missing.example".to_owned(),
            record_type: "A".to_owned(),
            response_code: Some(response_code),
            message: "rcode".to_owned(),
            description: "rcode".to_owned(),
        });

        assert_eq!(
            ImplementationError::from(error),
            ImplementationError::UpstreamError {
                status,
                body: format!("{label}: missing.example A"),
            }
        );
    }
}

#[test]
fn zone_matching_is_suffix_based_and_case_insensitive() {
    assert!(zone_matches("example.com", "example.com"));
    assert!(zone_matches("foo.example.com", "example.com"));
    assert!(zone_matches("bar.foo.example.com", "example.com"));
    assert!(zone_matches("EXAMPLE.com", "example.com"));
    assert!(zone_matches("foo.example.com.", "example.com"));
    assert!(!zone_matches("notexample.com", "example.com"));
    assert!(!zone_matches("example.org", "example.com"));
}

#[test]
fn policy_request_timeout_overrides_config_default() {
    let config = DnsConfig {
        default_timeout_ms: Some(10_000),
        ..DnsConfig::default()
    }
    .prepare(&[])
    .expect("config prepares");
    let request = DnsQueryRequest {
        name: "example.com".to_owned(),
        record_type: "A".to_owned(),
        timeout_ms: Some(3_000),
    }
    .prepare(&config, a_record())
    .expect("request prepares");

    assert_eq!(request.timeout, Duration::from_millis(3_000));
}

#[test]
fn default_timeout_is_used_when_no_override_exists() {
    let config = DnsConfig::default().prepare(&[]).expect("config prepares");
    let request = DnsQueryRequest {
        name: "example.com".to_owned(),
        record_type: "A".to_owned(),
        timeout_ms: None,
    }
    .prepare(&config, a_record())
    .expect("request prepares");

    assert_eq!(request.timeout, Duration::from_millis(DEFAULT_TIMEOUT_MS));
}

#[test]
fn timeout_values_are_clamped() {
    assert_eq!(clamp_timeout_ms(1), MIN_TIMEOUT_MS);
    assert_eq!(clamp_timeout_ms(5_000), 5_000);
    assert_eq!(clamp_timeout_ms(999_999), MAX_TIMEOUT_MS);
}
