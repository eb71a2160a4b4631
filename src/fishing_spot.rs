//! Settings of the optional third-party intent source and the requests made to it.
use vstd::prelude::*;
use vstd::string::StringExecFns;

verus! {

/// Connection settings of an intent source.
#[derive(Debug, Clone)]
pub struct FishingSpotConfig {
    /// Base URL of the source's API.
    pub endpoint: String,
    /// Poll period in milliseconds.
    pub poll_interval_ms: u64,
    /// Most intents fetched per poll.
    pub max_batch_size: usize,
    /// Bearer token, if the source asks for one.
    pub auth_token: Option<String>,
}

impl Default for FishingSpotConfig {
    fn default() -> (c: FishingSpotConfig)
        ensures
            c.endpoint@ == "https://fishing-spot.evvm.io"@,
            c.poll_interval_ms == 1000,
            c.max_batch_size == 1000,
            c.auth_token.is_none(),
    {
        FishingSpotConfig {
            endpoint: String::from_str("https://fishing-spot.evvm.io"),
            poll_interval_ms: 1000,
            max_batch_size: 1000,
            auth_token: None,
        }
    }
}

impl FishingSpotConfig {
    /// URL listing pending intents: the endpoint followed by `/api/v1/pending-intents`.
    pub fn pending_intents_url(&self) -> (r: String)
        ensures
            r@ == self.endpoint@ + "/api/v1/pending-intents"@,
    {
        let mut r = self.endpoint.clone();
        r.append("/api/v1/pending-intents");
        r
    }

    /// URL acknowledging processed intents: the endpoint followed by `/api/v1/acknowledge`.
    pub fn acknowledge_url(&self) -> (r: String)
        ensures
            r@ == self.endpoint@ + "/api/v1/acknowledge"@,
    {
        let mut r = self.endpoint.clone();
        r.append("/api/v1/acknowledge");
        r
    }

    /// URL of the source's statistics: the endpoint followed by `/api/v1/stats`.
    pub fn stats_url(&self) -> (r: String)
        ensures
            r@ == self.endpoint@ + "/api/v1/stats"@,
    {
        let mut r = self.endpoint.clone();
        r.append("/api/v1/stats");
        r
    }

    /// The `Authorization` header value, `Bearer <token>`, when a token is set.
    pub fn authorization(&self) -> (r: Option<String>)
        ensures
            self.auth_token.is_none() ==> r.is_none(),
            self.auth_token matches Some(t) ==> (r matches Some(h) && h@ == "Bearer "@ + t@),
    {
        match &self.auth_token {
            None => None,
            Some(t) => {
                let mut h = String::from_str("Bearer ");
                h.append(t.as_str());
                Some(h)
            },
        }
    }
}

} // verus!
