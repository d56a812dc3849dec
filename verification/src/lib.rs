//! Client-side core of a small payment-API SDK.
//!
//! The library owns everything that can be checked without touching the
//! network: request/response records, the JSON wire format (encoding and
//! decoding), URL composition, and the two-tier error taxonomy (status-level
//! vs decode-level failures). The HTTP transport itself lives outside the
//! library and hands a status code and a body string in.

pub mod error;
pub mod json;
pub mod utilities;
pub mod withdrawal_request;

use vstd::prelude::*;

verus! {

/// Immutable configuration for talking to the payment API: a base domain
/// (such as `https://api.zebedee.io`) and an API key sent with every call.
#[derive(Clone)]
pub struct ZebedeeClient {
    pub domain: String,
    pub apikey: String,
}

impl ZebedeeClient {
    /// Starts a client with an empty domain and key; fill them with
    /// `domain` and `apikey`, then freeze the value with `build`.
    pub fn new() -> (c: ZebedeeClient)
        ensures
            c.domain@ == Seq::<char>::empty(),
            c.apikey@ == Seq::<char>::empty(),
    {
        ZebedeeClient { domain: String::new(), apikey: String::new() }
    }

    /// Replaces the base domain, keeping the key.
    pub fn domain(self, domain: String) -> (c: ZebedeeClient)
        ensures
            c.domain@ == domain@,
            c.apikey@ == self.apikey@,
    {
        ZebedeeClient { domain, apikey: self.apikey }
    }

    /// Replaces the API key, keeping the domain.
    pub fn apikey(self, apikey: String) -> (c: ZebedeeClient)
        ensures
            c.domain@ == self.domain@,
            c.apikey@ == apikey@,
    {
        ZebedeeClient { domain: self.domain, apikey }
    }

    /// Finishes the builder chain; the configuration is already complete,
    /// so this returns the value unchanged.
    pub fn build(self) -> (c: ZebedeeClient)
        ensures
            c.domain@ == self.domain@,
            c.apikey@ == self.apikey@,
    {
        self
    }
}

} // verus!
