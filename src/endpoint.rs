use vstd::prelude::*;

use crate::decimal::{decimal, decimal_text};

verus! {

/// The host of the proxy's administrative server.
pub open spec fn admin_host() -> Seq<char> {
    seq!['l', 'o', 'c', 'a', 'l', 'h', 'o', 's', 't']
}

/// The authority `localhost:<port>` of the proxy's administrative server.
pub open spec fn authority_of(port: u16) -> Seq<char> {
    admin_host() + seq![':'] + decimal(port as nat)
}

/// The text of `http://<authority><path>`.
pub open spec fn http_uri(authority: Seq<char>, path: Seq<char>) -> Seq<char> {
    seq!['h', 't', 't', 'p', ':', '/', '/'] + authority + path
}

pub open spec fn ready_path() -> Seq<char> {
    seq!['/', 'r', 'e', 'a', 'd', 'y']
}

pub open spec fn shutdown_path() -> Seq<char> {
    seq!['/', 's', 'h', 'u', 't', 'd', 'o', 'w', 'n']
}

/// The proxy's administrative server, addressed once from its port and
/// shared by the readiness and the shutdown requests.
pub struct Endpoint {
    authority: String,
}

impl View for Endpoint {
    type V = Seq<char>;

    closed spec fn view(&self) -> Seq<char> {
        self.authority@
    }
}

impl Endpoint {
    pub fn new(port: u16) -> (r: Endpoint)
        ensures
            r@ == authority_of(port),
    {
        let mut authority = String::from_str("localhost:");
        authority.append(decimal_text(port as u64).as_str());
        proof {
            reveal_strlit("localhost:");
            assert("localhost:"@ =~= admin_host() + seq![':']);
        }
        Endpoint { authority }
    }

    /// The authority, `host:port`.
    pub fn authority(&self) -> (r: String)
        ensures
            r@ == self@,
    {
        self.authority.clone()
    }

    /// The URI of the readiness check.
    pub fn ready_uri(&self) -> (r: String)
        ensures
            r@ == http_uri(self@, ready_path()),
    {
        let mut uri = String::from_str("http://");
        uri.append(self.authority.as_str());
        uri.append("/ready");
        proof {
            reveal_strlit("http://");
            reveal_strlit("/ready");
            assert(uri@ =~= http_uri(self@, ready_path()));
        }
        uri
    }

    /// The URI of the shutdown request.
    pub fn shutdown_uri(&self) -> (r: String)
        ensures
            r@ == http_uri(self@, shutdown_path()),
    {
        let mut uri = String::from_str("http://");
        uri.append(self.authority.as_str());
        uri.append("/shutdown");
        proof {
            reveal_strlit("http://");
            reveal_strlit("/shutdown");
            assert(uri@ =~= http_uri(self@, shutdown_path()));
        }
        uri
    }
}

} // verus!
