//! The identity exchange: building the authentication request body and
//! extracting the token from the identity service's response.
//!
//! JSON encoding and decoding is done by serde_json behind trusted
//! wrappers; the date arithmetic of the expiry is done by chrono behind a
//! trusted wrapper. Everything around those calls is verified.

use vstd::prelude::*;
use crate::digits::{dec_digits, u64_to_dec};
use crate::errors::ProvisionError;
use crate::token::ConohaToken;

verus! {

/// JSON string literal (quoted, escaped) encoding of a string; a function
/// of the characters alone.
pub uninterp spec fn json_string_of(s: Seq<char>) -> Seq<char>;

/// Relies on serde_json::to_string for `&str`: returns the JSON string
/// literal encoding of the string; serializing a `&str` never fails.
#[verifier::external_body]
fn json_quote(s: &str) -> (r: String)
    ensures
        r@ == json_string_of(s@),
{
    serde_json::to_string(s).unwrap()
}

/// The `access.token.id` and `access.token.expires` string members of a
/// JSON document, when the document and both members are well-formed; a
/// function of the characters alone.
pub uninterp spec fn identity_token_fields(s: Seq<char>) -> Option<(Seq<char>, Seq<char>)>;

/// Relies on serde_json's from_str::<Value>, Value::get and Value::as_str:
/// extracts the `access.token.id` and `access.token.expires` string
/// members, `None` when the body is not JSON or lacks either member.
#[verifier::external_body]
fn extract_token_fields(body: &str) -> (r: Option<(String, String)>)
    ensures
        match r {
            Some(p) => identity_token_fields(body@) == Some((p.0@, p.1@)),
            None => identity_token_fields(body@) is None,
        },
{
    let v: serde_json::Value = serde_json::from_str(body).ok()?;
    let token = v.get("access")?.get("token")?;
    let id = token.get("id")?.as_str()?;
    let expires = token.get("expires")?.as_str()?;
    Some((id.to_owned(), expires.to_owned()))
}

/// Unix timestamp (seconds) denoted by an RFC 3339 date-time string, `None`
/// when the string does not parse; a function of the characters alone.
pub uninterp spec fn rfc3339_unix_of(s: Seq<char>) -> Option<i64>;

/// Relies on chrono's DateTime::parse_from_rfc3339 and DateTime::timestamp:
/// parses an RFC 3339 date-time and reads off its Unix timestamp.
#[verifier::external_body]
fn rfc3339_to_unix(s: &str) -> (r: Option<i64>)
    ensures
        r == rfc3339_unix_of(s@),
{
    chrono::DateTime::parse_from_rfc3339(s).ok().map(|d| d.timestamp())
}

/// The JSON body of the password-credentials authentication request.
pub open spec fn auth_request_body_spec(
    username: Seq<char>,
    password: Seq<char>,
    tenant_id: Seq<char>,
) -> Seq<char> {
    "{\"auth\":{\"passwordCredentials\":{\"username\":"@ + json_string_of(username)
        + ",\"password\":"@ + json_string_of(password) + "},\"tenantId\":"@ + json_string_of(
        tenant_id,
    ) + "}}"@
}

/// Build the authentication request body, with every credential escaped as
/// a JSON string literal.
pub fn build_auth_request_body(username: &str, password: &str, tenant_id: &str) -> (r: String)
    ensures
        r@ == auth_request_body_spec(username@, password@, tenant_id@),
{
    let r = String::from_str("{\"auth\":{\"passwordCredentials\":{\"username\":").concat(
        json_quote(username).as_str(),
    ).concat(",\"password\":").concat(json_quote(password).as_str()).concat(
        "},\"tenantId\":",
    ).concat(json_quote(tenant_id).as_str()).concat("}}");
    assert(r@ =~= auth_request_body_spec(username@, password@, tenant_id@));
    r
}

/// URL of the identity service's token collection.
pub open spec fn tokens_url_spec(identity_endpoint: Seq<char>) -> Seq<char> {
    identity_endpoint + "/tokens"@
}

pub fn tokens_url(identity_endpoint: &str) -> (r: String)
    ensures
        r@ == tokens_url_spec(identity_endpoint@),
{
    String::from_str(identity_endpoint).concat("/tokens")
}

/// Outcome of the identity service's response status: success exactly for
/// the 2xx range, anything else an authentication error naming the status.
pub fn check_identity_status(status: u16) -> (r: Result<(), ProvisionError>)
    ensures
        r is Ok <==> 200 <= status < 300,
        r matches Err(e) ==> e matches ProvisionError::Authentication(m) && m@
            == "identity service returned HTTP status "@ + dec_digits(status as nat),
{
    if 200 <= status && status < 300 {
        Ok(())
    } else {
        let m = String::from_str("identity service returned HTTP status ").concat(
            u64_to_dec(status as u64).as_str(),
        );
        assert(m@ =~= "identity service returned HTTP status "@ + dec_digits(status as nat));
        Err(ProvisionError::Authentication(m))
    }
}

/// Convert the extracted token fields to a token: succeeds exactly when the
/// expiry string denotes a nonnegative Unix timestamp. A malformed expiry
/// fails the authentication exchange.
pub fn token_from_fields(token_id: String, expires_str: &str) -> (r: Result<
    ConohaToken,
    ProvisionError,
>)
    ensures
        match rfc3339_unix_of(expires_str@) {
            Some(ts) => if 0 <= ts {
                r matches Ok(t) && t.token_id@ == token_id@ && t.expires == ts as u64
            } else {
                r matches Err(e) && e matches ProvisionError::Authentication(_)
            },
            None => r matches Err(e) && e matches ProvisionError::Authentication(_),
        },
{
    match rfc3339_to_unix(expires_str) {
        Some(ts) => {
            if ts >= 0 {
                Ok(ConohaToken { token_id, expires: ts as u64 })
            } else {
                Err(
                    ProvisionError::Authentication(
                        String::from_str("token expiry lies before the epoch"),
                    ),
                )
            }
        },
        None => Err(
            ProvisionError::Authentication(
                String::from_str("token expiry is not an RFC 3339 date-time"),
            ),
        ),
    }
}

/// Extract `access.token` from the identity response body and convert its
/// `id` and `expires` members to a token. Succeeds exactly when the body
/// carries both members and the expiry denotes a nonnegative Unix
/// timestamp; every failure fails the authentication exchange.
pub fn parse_identity_response(body: &str) -> (r: Result<ConohaToken, ProvisionError>)
    ensures
        match identity_token_fields(body@) {
            Some(fields) => match rfc3339_unix_of(fields.1) {
                Some(ts) => if 0 <= ts {
                    r matches Ok(t) && t.token_id@ == fields.0 && t.expires == ts as u64
                } else {
                    r matches Err(e) && e matches ProvisionError::Authentication(_)
                },
                None => r matches Err(e) && e matches ProvisionError::Authentication(_),
            },
            None => r matches Err(e) && e matches ProvisionError::Authentication(_),
        },
{
    match extract_token_fields(body) {
        Some((id, expires)) => token_from_fields(id, expires.as_str()),
        None => Err(
            ProvisionError::Authentication(
                String::from_str("identity response lacks access.token id and expires"),
            ),
        ),
    }
}

} // verus!
