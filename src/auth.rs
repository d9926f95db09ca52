//! Bearer-token admission of requests to the registry.
use vstd::prelude::*;

use crate::registry::opt_view;
use crate::scan::{relative_key, strip_key_prefix};
use crate::text::{trim_text, trimmed};

verus! {

/// The token a request was admitted with, or `disabled` where no token is configured.
pub struct ApiKey(pub String);

/// Why a request was refused.
#[derive(Debug, Clone, Copy, PartialEq, Eq)]
pub enum ApiKeyError {
    /// The request carried no `Authorization` header.
    Missing,
    /// The header is not a bearer token, or not the configured one.
    Invalid,
}

/// The token value that switches authentication off, also handed out as the key then.
pub open spec fn disabled_marker() -> Seq<char> {
    "disabled"@
}

/// Whether a request is admitted: with no configured token, or the token `disabled`, every
/// request passes; else the header must be `Bearer <token>` whose trimmed token equals
/// the configured one.
pub open spec fn admission(configured: Option<Seq<char>>, header: Option<Seq<char>>) -> Result<Seq<char>, ApiKeyError> {
    match configured {
        None => Ok(disabled_marker()),
        Some(secret) => if secret == disabled_marker() {
            Ok(disabled_marker())
        } else {
            match header {
                None => Err(ApiKeyError::Missing),
                Some(h) => match relative_key("Bearer "@, h) {
                    None => Err(ApiKeyError::Invalid),
                    Some(rest) => if trimmed(rest) == secret {
                        Ok(secret)
                    } else {
                        Err(ApiKeyError::Invalid)
                    },
                },
            }
        },
    }
}

pub open spec fn outcome_view(r: Result<ApiKey, ApiKeyError>) -> Result<Seq<char>, ApiKeyError> {
    match r {
        Ok(k) => Ok(k.0@),
        Err(e) => Err(e),
    }
}

/// Decides whether a request with the `Authorization` header `header` is admitted by
/// configured with `configured`.
pub fn authorize(configured: Option<String>, header: Option<String>) -> (r: Result<ApiKey, ApiKeyError>)
    ensures
        outcome_view(r) == admission(opt_view(configured), opt_view(header)),
{
    let disabled = String::from_str("disabled");
    proof {
        reveal_strlit("disabled");
    }
    let secret = match configured {
        None => return Ok(ApiKey(disabled)),
        Some(s) => s,
    };
    if secret == disabled {
        return Ok(ApiKey(disabled));
    }
    let h = match header {
        None => return Err(ApiKeyError::Missing),
        Some(h) => h,
    };
    let scheme = String::from_str("Bearer ");
    proof {
        reveal_strlit("Bearer ");
    }
    match strip_key_prefix(&scheme, &h) {
        None => Err(ApiKeyError::Invalid),
        Some(rest) => {
            let token = trim_text(rest.as_str());
            if token == secret {
                Ok(ApiKey(token))
            } else {
                Err(ApiKeyError::Invalid)
            }
        },
    }
}

} // verus!
