use vstd::prelude::*;
use vstd::string::StringExecFns;

verus! {

/// The market data feed of one endpoint.
pub struct MarketStream {
    endpoint: String,
}

impl MarketStream {
    /// The address of the feed.
    pub closed spec fn spec_endpoint(&self) -> Seq<char> {
        self.endpoint@
    }

    pub fn new(endpoint: String) -> (feed: Self)
        ensures
            feed.spec_endpoint() == endpoint@,
    {
        Self { endpoint }
    }

    /// The address of the feed.
    pub fn endpoint(&self) -> (endpoint: &str)
        ensures
            endpoint@ == self.spec_endpoint(),
    {
        self.endpoint.as_str()
    }

    /// The address at which `stream` is subscribed to.
    pub fn stream_url(&self, stream: &str) -> (url: String)
        ensures
            url@ == self.spec_endpoint() + "/"@ + stream@,
    {
        self.endpoint.clone().concat("/").concat(stream)
    }
}

} // verus!
