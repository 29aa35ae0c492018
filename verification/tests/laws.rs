use std::time::Duration;

use philharmonic_connector_impl_dns::{
    select_timeout, zone_matches, DnsConfig, DnsQueryRequest, DnsQueryResponse, DnsRecord,
    DnsRecordResponse, Error, ImplementationError, QueryOutcome, RecordType, ResolverError,
    DEFAULT_TIMEOUT_MS, MAX_TIMEOUT_MS, MIN_TIMEOUT_MS,
};

fn record_type(code: u16, name: &str) -> RecordType {
    RecordType {
        code,
        name: name.to_owned(),
    }
}

fn request(name: &str, timeout_ms: Option<u64>) -> DnsQueryRequest {
    DnsQueryRequest {
        name: name.to_owned(),
        record_type: "A".to_owned(),
        timeout_ms,
    }
}

#[test]
fn a_zone_matches_itself() {
    assert!(zone_matches("example.com", "example.com"));
    assert!(zone_matches("com", "com"));
}

#[test]
fn zone_matching_is_transitive() {
    assert!(zone_matches("a.b.example.com", "b.example.com"));
    assert!(zone_matches("b.example.com", "example.com"));
    assert!(zone_matches("a.b.example.com", "example.com"));
}

#[test]
fn zone_matching_ignores_ascii_case_on_both_sides() {
    assert!(zone_matches("WWW.EXAMPLE.COM", "example.com"));
    assert!(zone_matches("www.example.com", "EXAMPLE.Com"));
    assert!(!zone_matches("WWW.EXAMPLE.ORG", "example.com"));
}

#[test]
fn a_zone_matches_every_child_of_a_matching_name() {
    assert!(zone_matches("secret.example.com", "secret.example.com"));
    assert!(zone_matches("x.secret.example.com", "secret.example.com"));
    assert!(zone_matches("y.x.secret.example.com", "secret.example.com"));
    // any dot-free label, even an empty one or one that starts with white space
    assert!(zone_matches(".secret.example.com", "secret.example.com"));
    assert!(zone_matches(" x.secret.example.com", "secret.example.com"));
    assert!(zone_matches("  .secret.example.com", "secret.example.com"));
}

#[test]
fn zone_matching_edge_cases() {
    assert!(!zone_matches("example.com", ""));
    assert!(!zone_matches("example.com", "."));
    assert!(!zone_matches("com", "example.com"));
    assert!(zone_matches("  example.com.  ", "example.com"));
    assert!(zone_matches("example.com...", "example.com."));
    assert!(zone_matches("a..example.com", "example.com"));
    assert!(!zone_matches("", "example.com"));
}

#[test]
fn timeout_selection_precedence() {
    assert_eq!(select_timeout(Some(10_000), Some(3_000)), 3_000);
    assert_eq!(select_timeout(Some(10_000), None), 10_000);
    assert_eq!(select_timeout(None, None), DEFAULT_TIMEOUT_MS);
    assert_eq!(select_timeout(None, Some(0)), MIN_TIMEOUT_MS);
    assert_eq!(select_timeout(Some(u64::MAX), None), MAX_TIMEOUT_MS);
}

#[test]
fn config_zones_are_normalized() {
    let config = DnsConfig {
        allowlist_zones: Some(vec![" Example.COM. ".to_owned(), "Foo.Org..".to_owned()]),
        blocklist_zones: Some(vec!["SECRET.example.com".to_owned()]),
        ..DnsConfig::default()
    }
    .prepare(&[])
    .expect("config prepares");
    assert_eq!(
        config.allowlist_zones(),
        Some(&["example.com".to_owned(), "foo.org".to_owned()][..])
    );
    assert_eq!(
        config.blocklist_zones(),
        Some(&["secret.example.com".to_owned()][..])
    );
    assert_eq!(config.allowed_types(), None);
    assert_eq!(config.default_timeout_ms(), None);
}

#[test]
fn zone_lower_casing_keeps_non_ascii_chars() {
    let config = DnsConfig {
        blocklist_zones: Some(vec!["ÄBC.Zürich.CH".to_owned()]),
        ..DnsConfig::default()
    }
    .prepare(&[])
    .expect("config prepares");
    assert_eq!(
        config.blocklist_zones(),
        Some(&["Äbc.zürich.ch".to_owned()][..])
    );
}

#[test]
fn config_keeps_the_recognised_types() {
    let config = DnsConfig {
        allowed_types: Some(vec!["A".to_owned(), "MX".to_owned()]),
        ..DnsConfig::default()
    }
    .prepare(&[Some(record_type(1, "A")), Some(record_type(15, "MX"))])
    .expect("config prepares");
    assert_eq!(
        config.allowed_types(),
        Some(&[record_type(1, "A"), record_type(15, "MX")][..])
    );
}

#[test]
fn empty_allowlist_zone_is_invalid_config() {
    let denied = DnsConfig {
        allowlist_zones: Some(vec!["example.com".to_owned(), " . ".to_owned()]),
        ..DnsConfig::default()
    }
    .prepare(&[])
    .expect_err("empty zone denied");
    assert_eq!(
        denied,
        ImplementationError::InvalidConfig {
            detail: "allowlist_zones contains an empty zone".to_owned(),
        }
    );
    assert_eq!(
        denied.to_string(),
        "invalid config: allowlist_zones contains an empty zone"
    );
}

#[test]
fn empty_blocklist_zone_is_invalid_config() {
    let denied = DnsConfig {
        blocklist_zones: Some(vec!["...".to_owned()]),
        ..DnsConfig::default()
    }
    .prepare(&[])
    .expect_err("empty zone denied");
    assert_eq!(
        denied,
        ImplementationError::InvalidConfig {
            detail: "blocklist_zones contains an empty zone".to_owned(),
        }
    );
}

#[test]
fn unknown_allowed_type_is_reported_before_empty_zones() {
    let denied = DnsConfig {
        allowed_types: Some(vec!["A".to_owned(), "BOGUS".to_owned(), "ALSO".to_owned()]),
        allowlist_zones: Some(vec!["".to_owned()]),
        ..DnsConfig::default()
    }
    .prepare(&[Some(record_type(1, "A")), None, None])
    .expect_err("unknown type denied");
    assert_eq!(
        denied,
        ImplementationError::InvalidConfig {
            detail: "unknown record type 'BOGUS' in allowed_types".to_owned(),
        }
    );
}

#[test]
fn missing_parse_result_counts_as_unknown_type() {
    let denied = DnsConfig {
        allowed_types: Some(vec!["A".to_owned(), "MX".to_owned()]),
        ..DnsConfig::default()
    }
    .prepare(&[Some(record_type(1, "A"))])
    .expect_err("unparsed type denied");
    assert_eq!(
        denied,
        ImplementationError::InvalidConfig {
            detail: "unknown record type 'MX' in allowed_types".to_owned(),
        }
    );
}

#[test]
fn request_name_is_normalized() {
    let config = DnsConfig::default().prepare(&[]).expect("config prepares");
    let prepared = request("  www.Example.com.. ", None)
        .prepare(&config, Some(record_type(1, "A")))
        .expect("request prepares");
    assert_eq!(prepared.name, "www.Example.com");
    assert_eq!(prepared.record_type, record_type(1, "A"));
    assert_eq!(prepared.timeout, Duration::from_millis(DEFAULT_TIMEOUT_MS));
}

#[test]
fn request_errors_name_the_refusal() {
    let config = DnsConfig {
        allowed_types: Some(vec!["A".to_owned()]),
        allowlist_zones: Some(vec!["example.com".to_owned()]),
        blocklist_zones: Some(vec!["secret.example.com".to_owned()]),
        ..DnsConfig::default()
    }
    .prepare(&[Some(record_type(1, "A"))])
    .expect("config prepares");

    let denied = request(" . ", None)
        .prepare(&config, Some(record_type(1, "A")))
        .expect_err("empty name");
    assert_eq!(
        denied,
        ImplementationError::InvalidRequest {
            detail: "name required".to_owned(),
        }
    );

    let denied = request("example.com", None)
        .prepare(&config, None)
        .expect_err("unknown type");
    assert_eq!(
        denied,
        ImplementationError::InvalidRequest {
            detail: "unknown record type 'A'".to_owned(),
        }
    );

    let denied = request("example.com", None)
        .prepare(&config, Some(record_type(15, "MX")))
        .expect_err("type not allowed");
    assert_eq!(denied.to_string(), "invalid request: type 'MX' not in allowed_types");

    let denied = request("example.org.", None)
        .prepare(&config, Some(record_type(1, "A")))
        .expect_err("outside allowlist");
    assert_eq!(
        denied.to_string(),
        "invalid request: zone 'example.org' not in allowlist"
    );

    let denied = request("a.secret.example.com", None)
        .prepare(&config, Some(record_type(1, "A")))
        .expect_err("blocklisted");
    assert_eq!(
        denied.to_string(),
        "invalid request: zone 'a.secret.example.com' blocklisted"
    );
}

#[test]
fn type_allowlist_compares_codes() {
    let config = DnsConfig {
        allowed_types: Some(vec!["A".to_owned()]),
        ..DnsConfig::default()
    }
    .prepare(&[Some(record_type(1, "A"))])
    .expect("config prepares");
    request("example.com", None)
        .prepare(&config, Some(record_type(1, "A")))
        .expect("same code passes");
}

#[test]
fn other_resolver_failures_are_internal() {
    let formerr = Error::from_resolver(ResolverError::Lookup {
        name: "example.com".to_owned(),
        record_type: "A".to_owned(),
        response_code: Some(1),
        message: "format error".to_owned(),
        description: "lookup failed: format error".to_owned(),
    });
    assert_eq!(formerr, Error::Internal("lookup failed: format error".to_owned()));

    let no_code = Error::from_resolver(ResolverError::Lookup {
        name: "example.com".to_owned(),
        record_type: "A".to_owned(),
        response_code: None,
        message: "no records".to_owned(),
        description: "lookup failed: no records".to_owned(),
    });
    assert_eq!(no_code, Error::Internal("lookup failed: no records".to_owned()));

    let other = Error::from_resolver(ResolverError::Other {
        description: "resolver unavailable".to_owned(),
    });
    assert_eq!(other, Error::Internal("resolver unavailable".to_owned()));
}

#[test]
fn errors_are_reported_by_category() {
    assert_eq!(
        ImplementationError::from(Error::InvalidConfig("c".to_owned())),
        ImplementationError::InvalidConfig { detail: "c".to_owned() }
    );
    assert_eq!(
        ImplementationError::from(Error::InvalidRequest("r".to_owned())),
        ImplementationError::InvalidRequest { detail: "r".to_owned() }
    );
    assert_eq!(
        ImplementationError::from(Error::DnsRcode {
            status: 3,
            body: "b".to_owned()
        }),
        ImplementationError::UpstreamError {
            status: 3,
            body: "b".to_owned()
        }
    );
    assert_eq!(
        ImplementationError::from(Error::Internal("i".to_owned())),
        ImplementationError::Internal { detail: "i".to_owned() }
    );
}

#[test]
fn error_texts() {
    assert_eq!(
        ImplementationError::UpstreamError {
            status: 503,
            body: "REFUSED: x A".to_owned()
        }
        .to_string(),
        "upstream returned non-success status 503: REFUSED: x A"
    );
    assert_eq!(
        ImplementationError::UpstreamError {
            status: 0,
            body: "b".to_owned()
        }
        .to_string(),
        "upstream returned non-success status 0: b"
    );
    assert_eq!(
        ImplementationError::UpstreamError {
            status: 65535,
            body: String::new()
        }
        .to_string(),
        "upstream returned non-success status 65535: "
    );
    assert_eq!(ImplementationError::UpstreamTimeout.to_string(), "upstream timeout");
    assert_eq!(
        ImplementationError::Internal { detail: "boom".to_owned() }.to_string(),
        "internal implementation error: boom"
    );
}

#[test]
fn outcomes_become_responses_or_errors() {
    assert_eq!(
        DnsQueryResponse::from_outcome(QueryOutcome::TimedOut),
        Err(ImplementationError::UpstreamTimeout)
    );

    let records = vec![
        DnsRecord {
            name: "example.com.".to_owned(),
            record_type_name: "A".to_owned(),
            ttl: 300,
            data: "93.184.216.34".to_owned(),
        },
        DnsRecord {
            name: "example.com.".to_owned(),
            record_type_name: "A".to_owned(),
            ttl: 60,
            data: "93.184.216.35".to_owned(),
        },
    ];
    let response = DnsQueryResponse::from_outcome(QueryOutcome::Answered(records))
        .expect("answered");
    assert_eq!(
        response.records,
        vec![
            DnsRecordResponse {
                record_type: "A".to_owned(),
                name: "example.com.".to_owned(),
                ttl: 300,
                data: "93.184.216.34".to_owned(),
            },
            DnsRecordResponse {
                record_type: "A".to_owned(),
                name: "example.com.".to_owned(),
                ttl: 60,
                data: "93.184.216.35".to_owned(),
            },
        ]
    );

    let failed = DnsQueryResponse::from_outcome(QueryOutcome::Failed(ResolverError::Lookup {
        name: "missing.example".to_owned(),
        record_type: "AAAA".to_owned(),
        response_code: Some(3),
        message: "rcode".to_owned(),
        description: "rcode".to_owned(),
    }));
    assert_eq!(
        failed,
        Err(ImplementationError::UpstreamError {
            status: 3,
            body: "NXDOMAIN: missing.example AAAA".to_owned(),
        })
    );
}

#[test]
fn empty_answer_is_an_empty_response() {
    let response = DnsQueryResponse::from_records(Vec::new());
    assert!(response.records.is_empty());
}
