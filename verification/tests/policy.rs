use philharmonic_connector_impl_dns::{
    zone_matches, DnsConfig, DnsQueryRequest, ImplementationError, RecordType,
};

fn record_type(code: u16, name: &str) -> RecordType {
    RecordType {
        code,
        name: name.to_owned(),
    }
}

/// The record types that these tests recognise.
fn parse(record_type_name: &str) -> Option<RecordType> {
    match record_type_name {
        "A" => Some(record_type(1, "A")),
        "MX" => Some(record_type(15, "MX")),
        "AAAA" => Some(record_type(28, "AAAA")),
        _ => None,
    }
}

fn parse_all(config: &DnsConfig) -> Vec<Option<RecordType>> {
    match &config.allowed_types {
        Some(types) => types.iter().map(|t| parse(t)).collect(),
        None => Vec::new(),
    }
}

fn prepare_config(config: DnsConfig) -> Result<philharmonic_connector_impl_dns::PreparedConfig, ImplementationError> {
    let parsed = parse_all(&config);
    config.prepare(&parsed)
}

fn request(name: &str, record_type: &str) -> DnsQueryRequest {
    DnsQueryRequest {
        name: name.to_owned(),
        record_type: record_type.to_owned(),
        timeout_ms: None,
    }
}

fn prepare_request(
    request: DnsQueryRequest,
    config: &philharmonic_connector_impl_dns::PreparedConfig,
) -> Result<philharmonic_connector_impl_dns::PreparedRequest, ImplementationError> {
    let parsed = parse(&request.record_type);
    request.prepare(config, parsed)
}

#[test]
fn empty_policy_allows_standard_queries() {
    let config = prepare_config(DnsConfig::default()).expect("config prepares");

    prepare_request(request("www.example.com", "A"), &config).expect("A query allowed");
    prepare_request(request("example.com", "MX"), &config).expect("MX query allowed");
}

#[test]
fn allowlist_zone_policy_uses_final_label_suffixes() {
    let config = prepare_config(DnsConfig {
        allowlist_zones: Some(vec!["example.com".to_owned()]),
        ..DnsConfig::default()
    })
    .expect("config prepares");

    prepare_request(request("www.example.com", "A"), &config).expect("child passes");
    prepare_request(request("EXAMPLE.com", "A"), &config)
        .expect("case-insensitive exact zone passes");
    prepare_request(request("bar.foo.example.com", "A"), &config).expect("deep child passes");

    let denied = prepare_request(request("notexample.com", "A"), &config)
        .expect_err("substring match denied");
    assert!(matches!(denied, ImplementationError::InvalidRequest { .. }));
    assert!(denied.to_string().contains("not in allowlist"));
}

#[test]
fn blocklist_zone_policy_denies_zone_and_children() {
    let config = prepare_config(DnsConfig {
        blocklist_zones: Some(vec!["secret.example.com".to_owned()]),
        ..DnsConfig::default()
    })
    .expect("config prepares");

    for name in ["secret.example.com", "child.secret.example.com"] {
        let denied = prepare_request(request(name, "A"), &config)
            .expect_err("blocklisted zone denied");
        assert!(denied.to_string().contains("blocklisted"));
    }

    prepare_request(request("public.example.com", "A"), &config).expect("public child allowed");
}

#[test]
fn blocklist_overlays_allowlist() {
    let config = prepare_config(DnsConfig {
        allowlist_zones: Some(vec!["example.com".to_owned()]),
        blocklist_zones: Some(vec!["secret.example.com".to_owned()]),
        ..DnsConfig::default()
    })
    .expect("config prepares");

    prepare_request(request("public.example.com", "A"), &config)
        .expect("allowlisted public name passes");

    let blocklisted = prepare_request(request("secret.example.com", "A"), &config)
        .expect_err("overlay blocklist wins");
    assert!(blocklisted.to_string().contains("blocklisted"));

    let outside = prepare_request(request("notexample.com", "A"), &config)
        .expect_err("outside allowlist denied");
    assert!(outside.to_string().contains("not in allowlist"));
}

#[test]
fn allowed_types_policy_accepts_only_configured_types() {
    let config = prepare_config(DnsConfig {
        allowed_types: Some(vec!["A".to_owned(), "AAAA".to_owned()]),
        ..DnsConfig::default()
    })
    .expect("config prepares");

    prepare_request(request("example.com", "A"), &config).expect("allowed A passes");

    let denied = prepare_request(request("example.com", "MX"), &config).expect_err("MX denied");
    assert!(denied.to_string().contains("not in allowed_types"));
}

#[test]
fn empty_name_is_invalid_request() {
    let config = prepare_config(DnsConfig::default()).expect("config prepares");
    let denied = prepare_request(request("", "A"), &config).expect_err("empty name denied");

    assert!(denied.to_string().contains("name required"));
}

#[test]
fn unknown_record_type_is_invalid_request() {
    let config = prepare_config(DnsConfig::default()).expect("config prepares");
    let denied = prepare_request(request("example.com", "NOT_A_TYPE"), &config)
        .expect_err("unknown type denied");

    assert!(denied.to_string().contains("unknown record type"));
}

#[test]
fn unknown_record_type_in_allowed_types_is_invalid_config() {
    let denied = prepare_config(DnsConfig {
        allowed_types: Some(vec!["NOT_A_TYPE".to_owned()]),
        ..DnsConfig::default()
    })
    .expect_err("unknown type in config denied");

    assert!(matches!(denied, ImplementationError::InvalidConfig { .. }));
    assert!(denied.to_string().contains("allowed_types"));
}

#[test]
fn public_zone_match_helper_does_not_use_substring_matching() {
    assert!(zone_matches("foo.example.com", "example.com"));
    assert!(!zone_matches("notexample.com", "example.com"));
}
