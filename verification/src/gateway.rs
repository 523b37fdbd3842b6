//! The gateway that requests are sent to.

use crate::address::Ipv4Address;
use crate::decimal::{decimal, push_decimal};
use vstd::prelude::*;
use vstd::string::*;

verus! {

/// The scheme that every control URL starts with.
pub const URL_SCHEME: &'static str = "http://";

/// A gateway on the local network: where it listens, and the path of its
/// control endpoint.
#[derive(Debug)]
pub struct Gateway {
    /// The address the gateway listens on.
    pub addr: Ipv4Address,
    /// The port the gateway listens on.
    pub port: u16,
    /// The path of the control endpoint.
    pub control_url: String,
}

impl Gateway {
    /// The URL of the control endpoint: scheme, address, colon, port, path.
    pub open spec fn url(&self) -> Seq<char> {
        URL_SCHEME@ + self.addr.dotted_quad() + seq![':'] + decimal(self.port as nat)
            + self.control_url@
    }

    /// A gateway at `addr:port` with the control endpoint at `control_url`.
    pub fn new(addr: Ipv4Address, port: u16, control_url: String) -> (gateway: Gateway)
        ensures
            gateway.addr == addr,
            gateway.port == port,
            gateway.control_url@ == control_url@,
    {
        Gateway { addr, port, control_url }
    }

    /// The URL that requests to this gateway are posted to.
    pub fn control_endpoint(&self) -> (url: String)
        ensures
            url@ == self.url(),
    {
        proof {
            reveal_strlit(":");
        }
        assert(":"@ =~= seq![':']);
        let mut url = String::from_str(URL_SCHEME);
        self.addr.push_text(&mut url);
        url.append(":");
        push_decimal(&mut url, self.port as u32);
        url.append(self.control_url.as_str());
        url
    }
}

} // verus!
