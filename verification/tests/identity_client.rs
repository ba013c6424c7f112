use conoha_acme::client::{check_http_status, ConohaClient};
use conoha_acme::errors::ProvisionError;
use conoha_acme::identity::{
    build_auth_request_body, check_identity_status, parse_identity_response, token_from_fields,
    tokens_url,
};
use conoha_acme::token::ConohaToken;

#[test]
fn auth_request_body_escapes_credentials() {
    let body = build_auth_request_body("user\"x", "p\\w", "t1");
    assert_eq!(
        body,
        "{\"auth\":{\"passwordCredentials\":{\"username\":\"user\\\"x\",\"password\":\"p\\\\w\"},\"tenantId\":\"t1\"}}"
    );
}

#[test]
fn tokens_url_is_exact() {
    assert_eq!(tokens_url("https://identity.example"), "https://identity.example/tokens");
}

#[test]
fn token_from_fields_parses_rfc3339() {
    let t = token_from_fields("tok123".to_string(), "2030-01-01T00:00:00Z").unwrap();
    assert_eq!(t.token_id, "tok123");
    assert_eq!(t.expires, 1893456000);
}

#[test]
fn token_from_fields_rejects_bad_date() {
    match token_from_fields("tok123".to_string(), "not a date") {
        Err(ProvisionError::Authentication(_)) => {},
        _ => panic!("expected an Authentication error"),
    }
}

#[test]
fn identity_response_round_trip() {
    let body =
        "{\"access\":{\"token\":{\"id\":\"tok123\",\"expires\":\"2030-01-01T00:00:00Z\"}}}";
    let t = parse_identity_response(body).unwrap();
    assert_eq!(t.token_id, "tok123");
    assert_eq!(t.expires, 1893456000);
}

#[test]
fn identity_response_rejects_bad_bodies() {
    match parse_identity_response("not json") {
        Err(ProvisionError::Authentication(_)) => {},
        _ => panic!("expected an Authentication error"),
    }
    assert!(parse_identity_response("{}").is_err());
    assert!(parse_identity_response("{\"access\":{}}").is_err());
    assert!(parse_identity_response("{\"access\":{\"token\":{\"id\":\"x\"}}}").is_err());
    assert!(
        parse_identity_response("{\"access\":{\"token\":{\"id\":5,\"expires\":\"x\"}}}").is_err()
    );
}

#[test]
fn http_status_check_is_exact() {
    assert!(check_http_status(200, "https://x").is_ok());
    assert!(check_http_status(299, "https://x").is_ok());
    match check_http_status(404, "https://x") {
        Err(ProvisionError::Transport(m)) => {
            assert_eq!(m, "unexpected HTTP status 404 from https://x");
        },
        _ => panic!("expected a Transport error"),
    }
    assert!(check_http_status(199, "https://x").is_err());
}

#[test]
fn identity_status_check_is_exact() {
    assert!(check_identity_status(200).is_ok());
    match check_identity_status(401) {
        Err(ProvisionError::Authentication(m)) => {
            assert_eq!(m, "identity service returned HTTP status 401");
        },
        _ => panic!("expected an Authentication error"),
    }
}

#[test]
fn client_requires_loaded_token() {
    let client = ConohaClient::new();
    match client.auth_token() {
        Err(ProvisionError::Authentication(_)) => {},
        _ => panic!("expected an Authentication error"),
    }
    let client = client.with_token(ConohaToken { token_id: "abc".to_string(), expires: 1 });
    assert_eq!(client.auth_token().unwrap(), "abc");
}

#[test]
fn error_messages_name_their_class() {
    let e = ProvisionError::NotFound("a.com".to_string());
    assert_eq!(e.message(), "no zone found for domain: a.com");
    let e = ProvisionError::Transport("timed out".to_string());
    assert_eq!(e.message(), "transport error: timed out");
}
