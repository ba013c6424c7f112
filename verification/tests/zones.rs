use conoha_acme::dns::{
    auth_plan, domain_matches, domains_url, get_domain_without_dot, is_same_domain, record_url,
    records_url, resolve, Domain, DomainListResponse,
};
use conoha_acme::errors::ProvisionError;

fn zone(id: Option<&str>, name: &str) -> Domain {
    Domain {
        id: id.map(|s| s.to_string()),
        name: name.to_string(),
        ttl: None,
        serial: None,
        email: String::new(),
        gslb: None,
        description: None,
    }
}

#[test]
fn is_same_domain_equal() {
    assert!(is_same_domain("example.com", "example.com"));
}

#[test]
fn is_same_domain_subdomain() {
    assert!(is_same_domain("a.sub.example.com", "example.com"));
    assert!(is_same_domain("a.sub.example.com", "sub.example.com"));
}

#[test]
fn is_same_domain_boundary() {
    assert!(!is_same_domain("notexample.com", "example.com"));
    assert!(!is_same_domain("example.com", "a.example.com"));
}

#[test]
fn get_domain_without_dot_strips_separator_if_present() {
    assert_eq!(get_domain_without_dot("example.com."), "example.com");
    assert_eq!(get_domain_without_dot("example.com"), "example.com");
    assert_eq!(get_domain_without_dot(""), "");
}

#[test]
fn domain_matches_trailing_dot() {
    assert!(domain_matches("a.example.com", "example.com."));
    assert!(domain_matches("example.com", "example.com."));
    assert!(domain_matches("example.com", "example.com"));
    assert!(!domain_matches("notexample.com", "example.com."));
}

#[test]
fn resolve_first_match_wins() {
    let zones = DomainListResponse {
        domains: vec![
            zone(Some("id-outer"), "example.com."),
            zone(Some("id-inner"), "sub.example.com."),
        ],
    };
    assert_eq!(resolve(&zones, "a.sub.example.com").unwrap(), "id-outer");

    let zones_reversed = DomainListResponse {
        domains: vec![
            zone(Some("id-inner"), "sub.example.com."),
            zone(Some("id-outer"), "example.com."),
        ],
    };
    assert_eq!(resolve(&zones_reversed, "a.sub.example.com").unwrap(), "id-inner");
}

#[test]
fn resolve_not_found_carries_domain() {
    let zones = DomainListResponse { domains: vec![zone(Some("z1"), "other.org.")] };
    match resolve(&zones, "a.example.com") {
        Err(ProvisionError::NotFound(d)) => assert_eq!(d, "a.example.com"),
        _ => panic!("expected a NotFound error"),
    }
}

#[test]
fn resolve_missing_id_is_deserialization_error() {
    let zones = DomainListResponse { domains: vec![zone(None, "example.com.")] };
    match resolve(&zones, "a.example.com") {
        Err(ProvisionError::Deserialization(_)) => {},
        _ => panic!("expected a Deserialization error"),
    }
}

#[test]
fn urls_are_exact() {
    assert_eq!(domains_url(), "https://dns-service.tyo1.conoha.io/v1/domains");
    assert_eq!(
        records_url("zid"),
        "https://dns-service.tyo1.conoha.io/v1/domains/zid/records"
    );
    assert_eq!(
        record_url("zid", "rid"),
        "https://dns-service.tyo1.conoha.io/v1/domains/zid/records/rid"
    );
}

#[test]
fn auth_plan_end_to_end() {
    let zones = DomainListResponse {
        domains: vec![
            zone(Some("id-outer"), "example.com."),
            zone(Some("id-inner"), "sub.example.com."),
        ],
    };
    let plan = auth_plan(&zones, "a.sub.example.com", "tokval").unwrap();
    assert_eq!(
        plan.url,
        "https://dns-service.tyo1.conoha.io/v1/domains/id-outer/records"
    );
    assert_eq!(plan.record.name, "_acme-challenge.a.sub.example.com.");
    assert_eq!(plan.record.record_type, "TXT");
    assert_eq!(plan.record.data, "tokval");
    assert_eq!(plan.record.ttl, Some(60));
    assert!(plan.record.id.is_none());
    assert!(plan.record.priority.is_none());
    assert!(plan.record.description.is_none());
}
