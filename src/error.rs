use vstd::prelude::*;

use crate::hostname::joined;

verus! {

/// Why an update request failed.
#[derive(Debug, PartialEq, Eq)]
pub enum UpdateError {
    /// The runtime or its configuration failed (a secret could not be read).
    Worker(String),
    /// The credential store's lookup failed (not a missing entry).
    Kv(String),
    /// The DNS provider's client could not be built or could not send.
    CloudflareSdk(String),
    /// The DNS provider answered with a failure.
    CloudflareApi(String),
    /// The result was abandoned before it was produced.
    Canceled,
    /// Missing or empty hostname or password, unknown hostname, or wrong
    /// password; which one is never told.
    Unauthorized,
}

impl UpdateError {
    pub open spec fn spec_status_code(&self) -> u16 {
        match self {
            UpdateError::Unauthorized => 401,
            _ => 500,
        }
    }

    pub open spec fn spec_message(&self) -> Seq<char> {
        match self {
            UpdateError::Worker(e) => "Cloudflare Worker runtime error: "@ + e@,
            UpdateError::Kv(e) => "KV store error: "@ + e@,
            UpdateError::CloudflareSdk(e) => "Cloudflare SDK error: "@ + e@,
            UpdateError::CloudflareApi(e) => "Cloudflare API error: "@ + e@,
            UpdateError::Canceled => "Task canceled"@,
            UpdateError::Unauthorized => "hostname/password incorrect"@,
        }
    }

    /// The text reported with the error. An authentication failure gets one
    /// fixed text, whatever its cause.
    pub fn message(&self) -> (r: String)
        ensures
            r@ == self.spec_message(),
    {
        match self {
            UpdateError::Worker(e) => joined("Cloudflare Worker runtime error: ", e.as_str()),
            UpdateError::Kv(e) => joined("KV store error: ", e.as_str()),
            UpdateError::CloudflareSdk(e) => joined("Cloudflare SDK error: ", e.as_str()),
            UpdateError::CloudflareApi(e) => joined("Cloudflare API error: ", e.as_str()),
            UpdateError::Canceled => "Task canceled".to_owned(),
            UpdateError::Unauthorized => "hostname/password incorrect".to_owned(),
        }
    }

    /// The HTTP status reported for the error: 401 when authentication
    /// failed, 500 for every other kind.
    pub fn status_code(&self) -> (r: u16)
        ensures
            r == self.spec_status_code(),
    {
        match self {
            UpdateError::Unauthorized => 401,
            _ => 500,
        }
    }
}

} // verus!
