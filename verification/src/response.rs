//! Reading a gateway's replies.

use crate::address::{parse_dotted_quad, parsed_dotted_quad, Ipv4Address};
use crate::error::{RequestError, TransportError};
use crate::address::lemma_dotted_quad_round_trip;
use crate::pattern::{
    first_group, first_group_capture, is_plain_literal, literal_is_match, occurs_in,
};
use vstd::prelude::*;
use vstd::string::*;

verus! {

/// The regular expression that finds the external address in a reply:
/// the element, with four dot-separated runs of digits as its only group.
pub const ADDRESS_PATTERN: &'static str =
    "<NewExternalIPAddress>(\\d+\\.\\d+\\.\\d+\\.\\d+)</NewExternalIPAddress>";

/// The tag by which a gateway acknowledges a new port mapping.
pub const ADD_PORT_RESPONSE_TAG: &'static str = "u:AddPortMappingResponse";

/// The tag by which a gateway acknowledges a deleted port mapping.
pub const DELETE_PORT_RESPONSE_TAG: &'static str = "u:DeletePortMappingResponse";

/// The address that a captured element content stands for: the content
/// must be the strict dotted-quad notation of an address.
pub open spec fn address_of_capture(capture: Option<Seq<char>>) -> Result<
    Ipv4Address,
    RequestError,
> {
    match capture {
        Some(content) => match parsed_dotted_quad(content) {
            Some(ip) => Ok(ip),
            None => Err(RequestError::InvalidResponse),
        },
        None => Err(RequestError::InvalidResponse),
    }
}

/// The verdict on a reply in which `tag` is looked for: success exactly
/// where the tag occurs somewhere in the text.
pub open spec fn ack_of(tag: Seq<char>, text: Seq<char>) -> Result<(), RequestError> {
    if occurs_in(tag, text) {
        Ok(())
    } else {
        Err(RequestError::InvalidResponse)
    }
}

/// What the request for the external address comes to, given what the
/// transport returned.
pub open spec fn external_ip_outcome(reply: Result<String, TransportError>) -> Result<
    Ipv4Address,
    RequestError,
> {
    match reply {
        Ok(text) => address_of_capture(first_group_capture(ADDRESS_PATTERN@, text@)),
        Err(err) => Err(RequestError::TransportFailure(err)),
    }
}

/// What a port-mapping request acknowledged by `tag` comes to, given what
/// the transport returned.
pub open spec fn ack_outcome(tag: Seq<char>, reply: Result<String, TransportError>) -> Result<
    (),
    RequestError,
> {
    match reply {
        Ok(text) => ack_of(tag, text@),
        Err(err) => Err(RequestError::TransportFailure(err)),
    }
}

/// The address in the content of an address element, as the search
/// captured it. Nothing captured, or a content that is not the strict
/// notation of an address (an octet above 255, a leading zero, digits that
/// are not ASCII), is an invalid response.
pub fn address_from_capture(capture: Option<&str>) -> (r: Result<Ipv4Address, RequestError>)
    ensures
        r == address_of_capture(
            match capture {
                Some(content) => Some(content@),
                None => None,
            },
        ),
        forall|ip: Ipv4Address|
            capture matches Some(content) && content@ == ip.dotted_quad() ==> r == Ok::<
                Ipv4Address,
                RequestError,
            >(ip),
{
    match capture {
        Some(content) => match parse_dotted_quad(content) {
            Some(ip) => Ok(ip),
            None => Err(RequestError::InvalidResponse),
        },
        None => Err(RequestError::InvalidResponse),
    }
}

/// Finds the external address in the text of a reply: the content of the
/// leftmost address element whose content is four runs of digits.
pub fn extract_address(text: &str) -> (r: Result<Ipv4Address, RequestError>)
    ensures
        r == address_of_capture(first_group_capture(ADDRESS_PATTERN@, text@)),
        forall|ip: Ipv4Address|
            first_group_capture(ADDRESS_PATTERN@, text@) == Some(ip.dotted_quad()) ==> r == Ok::<
                Ipv4Address,
                RequestError,
            >(ip),
        r matches Ok(ip) ==> first_group_capture(ADDRESS_PATTERN@, text@) == Some(
            ip.dotted_quad(),
        ),
        r matches Err(err) ==> err == RequestError::InvalidResponse,
{
    match first_group(ADDRESS_PATTERN, text) {
        Some(content) => address_from_capture(Some(content.as_str())),
        None => address_from_capture(None),
    }
}

/// Looks for `expected_tag` anywhere in the text of a reply.
pub fn parse_ack(text: &str, expected_tag: &str) -> (r: Result<(), RequestError>)
    requires
        is_plain_literal(expected_tag@),
    ensures
        r == ack_of(expected_tag@, text@),
{
    if literal_is_match(expected_tag, text) {
        Ok(())
    } else {
        Err(RequestError::InvalidResponse)
    }
}

/// Whether the text of a reply acknowledges a new port mapping.
pub fn add_port_ack(text: &str) -> (r: Result<(), RequestError>)
    ensures
        r == ack_of(ADD_PORT_RESPONSE_TAG@, text@),
        r is Ok <==> occurs_in(ADD_PORT_RESPONSE_TAG@, text@),
        r is Err ==> r == Err::<(), RequestError>(RequestError::InvalidResponse),
{
    proof {
        reveal_strlit("u:AddPortMappingResponse");
        assert(is_plain_literal(ADD_PORT_RESPONSE_TAG@));
    }
    parse_ack(text, ADD_PORT_RESPONSE_TAG)
}

/// Whether the text of a reply acknowledges a deleted port mapping.
pub fn remove_port_ack(text: &str) -> (r: Result<(), RequestError>)
    ensures
        r == ack_of(DELETE_PORT_RESPONSE_TAG@, text@),
        r is Ok <==> occurs_in(DELETE_PORT_RESPONSE_TAG@, text@),
        r is Err ==> r == Err::<(), RequestError>(RequestError::InvalidResponse),
{
    proof {
        reveal_strlit("u:DeletePortMappingResponse");
        assert(is_plain_literal(DELETE_PORT_RESPONSE_TAG@));
    }
    parse_ack(text, DELETE_PORT_RESPONSE_TAG)
}

/// Completes the request for the external address with what the
/// transport returned.
pub fn external_ip_reply(reply: Result<String, TransportError>) -> (r: Result<
    Ipv4Address,
    RequestError,
>)
    ensures
        r == external_ip_outcome(reply),
{
    match reply {
        Ok(text) => extract_address(text.as_str()),
        Err(err) => Err(RequestError::from(err)),
    }
}

/// Completes the request that adds a port mapping with what the transport
/// returned.
pub fn add_port_reply(reply: Result<String, TransportError>) -> (r: Result<(), RequestError>)
    ensures
        r == ack_outcome(ADD_PORT_RESPONSE_TAG@, reply),
{
    match reply {
        Ok(text) => add_port_ack(text.as_str()),
        Err(err) => Err(RequestError::from(err)),
    }
}

/// Completes the request that removes a port mapping with what the
/// transport returned.
pub fn remove_port_reply(reply: Result<String, TransportError>) -> (r: Result<
    (),
    RequestError,
>)
    ensures
        r == ack_outcome(DELETE_PORT_RESPONSE_TAG@, reply),
{
    match reply {
        Ok(text) => remove_port_ack(text.as_str()),
        Err(err) => Err(RequestError::from(err)),
    }
}

/// An address element whose content is the dotted-quad notation of an
/// address, each octet between 0 and 255, gives exactly that address.
pub proof fn lemma_captured_address(ip: Ipv4Address)
    ensures
        address_of_capture(Some(ip.dotted_quad())) == Ok::<Ipv4Address, RequestError>(ip),
{
    lemma_dotted_quad_round_trip(ip, ip.dotted_quad());
}

/// A reply without an address element, or with one whose content is the
/// notation of no address, is an invalid response and nothing else; the
/// address that comes out is always the one that the content denotes.
pub proof fn lemma_address_or_invalid(capture: Option<Seq<char>>)
    ensures
        match address_of_capture(capture) {
            Ok(ip) => capture == Some(ip.dotted_quad()),
            Err(err) => {
                &&& err == RequestError::InvalidResponse
                &&& forall|ip: Ipv4Address| capture != Some(ip.dotted_quad())
            },
        },
{
    match capture {
        Some(content) => {
            assert forall|ip: Ipv4Address| #[trigger]
                ip.dotted_quad() == content implies parsed_dotted_quad(content) == Some(ip) by {
                lemma_dotted_quad_round_trip(ip, content);
            }
        },
        None => {},
    }
}

/// A port-mapping reply is a success exactly where the tag occurs in it,
/// and an invalid response everywhere else.
pub proof fn lemma_ack_by_presence(tag: Seq<char>, text: Seq<char>)
    ensures
        occurs_in(tag, text) ==> ack_of(tag, text) == Ok::<(), RequestError>(()),
        !occurs_in(tag, text) ==> ack_of(tag, text) == Err::<(), RequestError>(
            RequestError::InvalidResponse,
        ),
{
}

} // verus!
