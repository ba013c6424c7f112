//! The API client's verifiable state: whether a token has been loaded, and
//! the bearer header decision every authenticated call goes through.

use vstd::prelude::*;
use crate::digits::{dec_digits, u64_to_dec};
use crate::errors::ProvisionError;
use crate::token::ConohaToken;

verus! {

/// Outcome of an HTTP response status: success exactly for the 2xx range,
/// anything else a transport error naming the status and the URL. Every
/// response the client receives goes through this decision.
pub fn check_http_status(status: u16, url: &str) -> (r: Result<(), ProvisionError>)
    ensures
        r is Ok <==> 200 <= status < 300,
        r matches Err(e) ==> e matches ProvisionError::Transport(m) && m@
            == "unexpected HTTP status "@ + dec_digits(status as nat) + " from "@ + url@,
{
    if 200 <= status && status < 300 {
        Ok(())
    } else {
        let m = String::from_str("unexpected HTTP status ").concat(
            u64_to_dec(status as u64).as_str(),
        ).concat(" from ").concat(url);
        assert(m@ =~= "unexpected HTTP status "@ + dec_digits(status as nat) + " from "@
            + url@);
        Err(ProvisionError::Transport(m))
    }
}

/// The authenticated client's state. The HTTP transport lives outside the
/// library; the calls it makes are driven by this state.
pub struct ConohaClient {
    pub token: Option<ConohaToken>,
}

impl ConohaClient {
    /// A fresh client holds no token yet.
    pub fn new() -> (r: Self)
        ensures
            r.token is None,
    {
        ConohaClient { token: None }
    }

    /// The client after a token has been loaded.
    pub fn with_token(self, token: ConohaToken) -> (r: Self)
        ensures
            r.token == Some(token),
    {
        ConohaClient { token: Some(token) }
    }

    /// The bearer token value to attach to a request. Fails with an
    /// authentication error exactly when no token has been loaded.
    pub fn auth_token(&self) -> (r: Result<String, ProvisionError>)
        ensures
            match self.token {
                Some(t) => r matches Ok(s) && s@ == t.token_id@,
                None => r matches Err(e) && e matches ProvisionError::Authentication(_),
            },
    {
        match &self.token {
            Some(t) => Ok(t.token_id.clone()),
            None => Err(ProvisionError::Authentication(String::from_str("token not loaded"))),
        }
    }
}

} // verus!
