//! Endpoint configuration: an immutable description of one target, built
//! around a parsed URI. The URI itself is the `http` crate's; parsing it is
//! the one outside call, behind a trusted wrapper.

use vstd::prelude::*;

verus! {

#[verifier::external_type_specification]
#[verifier::external_body]
pub struct ExUri(http::Uri);

#[verifier::external_type_specification]
#[verifier::external_body]
pub struct ExInvalidUri(http::uri::InvalidUri);

/// Whether `s` parses as a URI. Parsing is deterministic: whether it
/// succeeds depends on the characters alone.
pub uninterp spec fn uri_ok(s: Seq<char>) -> bool;

/// Relies on `str::parse::<http::Uri>` (http's `FromStr` for `Uri`): a
/// deterministic parse of the string, `Ok` exactly on well-formed URIs.
#[verifier::external_body]
pub fn parse_uri(s: &str) -> (r: Result<http::Uri, http::uri::InvalidUri>)
    ensures
        r is Ok <==> uri_ok(s@),
{
    s.parse::<http::Uri>()
}

/// The library's error for a string that does not parse as a URI.
#[derive(Clone, Copy, Debug, PartialEq, Eq, Structural)]
pub struct InvalidUriError {}

/// An immutable configuration for one target: URI, connect timeout,
/// owning-channel buffer size, user agent. A channel is made from it.
pub struct Endpoint {
    pub uri: http::Uri,
    pub connect_timeout_ms: Option<u64>,
    pub buffer_size: Option<usize>,
    pub user_agent: Option<String>,
}

impl Endpoint {
    /// A fresh endpoint for `uri`, with every option unset.
    pub fn from_uri(uri: http::Uri) -> (r: Endpoint)
        ensures
            r.uri == uri,
            r.connect_timeout_ms is None,
            r.buffer_size is None,
            r.user_agent is None,
    {
        Endpoint { uri, connect_timeout_ms: None, buffer_size: None, user_agent: None }
    }

    /// Set the connect timeout, in milliseconds.
    pub fn connect_timeout_ms(self, ms: u64) -> (r: Endpoint)
        ensures
            r.connect_timeout_ms == Some(ms),
            r.uri == self.uri,
            r.buffer_size == self.buffer_size,
            r.user_agent == self.user_agent,
    {
        let mut this = self;
        this.connect_timeout_ms = Some(ms);
        this
    }

    /// Set the bounded queue capacity of the channel this endpoint makes.
    pub fn buffer_size(self, size: usize) -> (r: Endpoint)
        ensures
            r.buffer_size == Some(size),
            r.uri == self.uri,
            r.connect_timeout_ms == self.connect_timeout_ms,
            r.user_agent == self.user_agent,
    {
        let mut this = self;
        this.buffer_size = Some(size);
        this
    }

    /// Set the user agent sent with each request.
    pub fn user_agent(self, agent: String) -> (r: Endpoint)
        ensures
            r.user_agent == Some(agent),
            r.uri == self.uri,
            r.connect_timeout_ms == self.connect_timeout_ms,
            r.buffer_size == self.buffer_size,
    {
        let mut this = self;
        this.user_agent = Some(agent);
        this
    }
}

} // verus!
