//! The transport protocols a port mapping can forward.

use vstd::prelude::*;
use vstd::string::*;

verus! {

/// The protocol of a port mapping.
#[derive(Debug, Clone, Copy, PartialEq, Eq, Structural)]
pub enum PortMappingProtocol {
    TCP,
    UDP,
}

impl PortMappingProtocol {
    /// The upper-case literal by which gateways know the protocol.
    pub open spec fn literal(self) -> Seq<char> {
        match self {
            PortMappingProtocol::TCP => seq!['T', 'C', 'P'],
            PortMappingProtocol::UDP => seq!['U', 'D', 'P'],
        }
    }

    /// The protocol's literal as a string slice: `"TCP"` or `"UDP"`.
    pub fn as_str(&self) -> (text: &'static str)
        ensures
            text@ == self.literal(),
    {
        proof {
            reveal_strlit("TCP");
            reveal_strlit("UDP");
        }
        let text = match self {
            PortMappingProtocol::TCP => "TCP",
            PortMappingProtocol::UDP => "UDP",
        };
        assert(text@ =~= self.literal());
        text
    }

    /// The protocol's literal as an owned string.
    pub fn to_text(&self) -> (text: String)
        ensures
            text@ == self.literal(),
    {
        String::from_str(self.as_str())
    }
}

} // verus!
