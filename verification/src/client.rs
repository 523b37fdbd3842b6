//! The three gateway actions, each one round trip over a transport that
//! the caller supplies.

use crate::address::Ipv4Address;
use crate::error::{RequestError, TransportError};
use crate::gateway::Gateway;
use crate::protocol::PortMappingProtocol;
use crate::request::{
    add_port_action, add_port_body, add_port_v4_action, external_ip_action,
    remove_port_action, remove_port_body, Action, ADD_PORT_SOAP_ACTION, DELETE_PORT_SOAP_ACTION, EXTERNAL_IP_REQUEST,
    GET_EXTERNAL_IP_SOAP_ACTION,
};
use crate::response::{
    ack_outcome, add_port_reply, external_ip_outcome, external_ip_reply, remove_port_reply,
    ADD_PORT_RESPONSE_TAG, DELETE_PORT_RESPONSE_TAG,
};
use vstd::prelude::*;

verus! {

/// Asks the gateway for its external address. `send` is called once, with
/// the request, and its reply decides the result.
pub fn get_external_ip<F>(gateway: &Gateway, send: F) -> (r: Result<Ipv4Address, RequestError>)
    where F: FnOnce(Action) -> Result<String, TransportError>
    requires
        forall|action: Action|
            action.url@ == gateway.url() && action.soap_action@ == GET_EXTERNAL_IP_SOAP_ACTION@
                && action.body@ == EXTERNAL_IP_REQUEST@ ==> #[trigger] send.requires((action,)),
    ensures
        exists|action: Action, reply: Result<String, TransportError>|
            {
                &&& action.url@ == gateway.url()
                &&& action.soap_action@ == GET_EXTERNAL_IP_SOAP_ACTION@
                &&& action.body@ == EXTERNAL_IP_REQUEST@
                &&& #[trigger] send.ensures((action,), reply)
                &&& r == external_ip_outcome(reply)
            },
{
    let action = external_ip_action(gateway);
    let reply = send(action);
    external_ip_reply(reply)
}

/// Asks the gateway to forward `external_port` to `internal_client` at
/// `internal_port`, for `lease_duration` seconds or, at zero, for good.
/// `send` is called once, with the request, and its reply decides the
/// result.
pub fn add_port<F>(
    gateway: &Gateway,
    protocol: PortMappingProtocol,
    external_port: u16,
    internal_client: &str,
    internal_port: u16,
    lease_duration: u32,
    description: &str,
    send: F,
) -> (r: Result<(), RequestError>)
    where F: FnOnce(Action) -> Result<String, TransportError>
    requires
        forall|action: Action|
            action.url@ == gateway.url() && action.soap_action@ == ADD_PORT_SOAP_ACTION@
                && action.body@ == add_port_body(
                protocol,
                external_port,
                internal_client@,
                internal_port,
                lease_duration,
                description@,
            ) ==> #[trigger] send.requires((action,)),
    ensures
        exists|action: Action, reply: Result<String, TransportError>|
            {
                &&& action.url@ == gateway.url()
                &&& action.soap_action@ == ADD_PORT_SOAP_ACTION@
                &&& action.body@ == add_port_body(
                    protocol,
                    external_port,
                    internal_client@,
                    internal_port,
                    lease_duration,
                    description@,
                )
                &&& #[trigger] send.ensures((action,), reply)
                &&& r == ack_outcome(ADD_PORT_RESPONSE_TAG@, reply)
            },
{
    let action = add_port_action(
        gateway,
        protocol,
        external_port,
        internal_client,
        internal_port,
        lease_duration,
        description,
    );
    let reply = send(action);
    add_port_reply(reply)
}

/// Asks the gateway to forward `external_port` to the IPv4 host
/// `internal_address` at `internal_port`, for `lease_duration` seconds or,
/// at zero, for good. The internal client that is sent is the dotted-quad
/// notation of the address. `send` is called once, with the request, and
/// its reply decides the result.
pub fn add_port_v4<F>(
    gateway: &Gateway,
    protocol: PortMappingProtocol,
    external_port: u16,
    internal_address: Ipv4Address,
    internal_port: u16,
    lease_duration: u32,
    description: &str,
    send: F,
) -> (r: Result<(), RequestError>)
    where F: FnOnce(Action) -> Result<String, TransportError>
    requires
        forall|action: Action|
            action.url@ == gateway.url() && action.soap_action@ == ADD_PORT_SOAP_ACTION@
                && action.body@ == add_port_body(
                protocol,
                external_port,
                internal_address.dotted_quad(),
                internal_port,
                lease_duration,
                description@,
            ) ==> #[trigger] send.requires((action,)),
    ensures
        exists|action: Action, reply: Result<String, TransportError>|
            {
                &&& action.url@ == gateway.url()
                &&& action.soap_action@ == ADD_PORT_SOAP_ACTION@
                &&& action.body@ == add_port_body(
                    protocol,
                    external_port,
                    internal_address.dotted_quad(),
                    internal_port,
                    lease_duration,
                    description@,
                )
                &&& #[trigger] send.ensures((action,), reply)
                &&& r == ack_outcome(ADD_PORT_RESPONSE_TAG@, reply)
            },
{
    let action = add_port_v4_action(
        gateway,
        protocol,
        external_port,
        internal_address,
        internal_port,
        lease_duration,
        description,
    );
    let reply = send(action);
    add_port_reply(reply)
}

/// Asks the gateway to stop forwarding `external_port`. `send` is called
/// once, with the request, and its reply decides the result.
pub fn remove_port<F>(
    gateway: &Gateway,
    protocol: PortMappingProtocol,
    external_port: u16,
    send: F,
) -> (r: Result<(), RequestError>)
    where F: FnOnce(Action) -> Result<String, TransportError>
    requires
        forall|action: Action|
            action.url@ == gateway.url() && action.soap_action@ == DELETE_PORT_SOAP_ACTION@
                && action.body@ == remove_port_body(protocol, external_port)
                ==> #[trigger] send.requires((action,)),
    ensures
        exists|action: Action, reply: Result<String, TransportError>|
            {
                &&& action.url@ == gateway.url()
                &&& action.soap_action@ == DELETE_PORT_SOAP_ACTION@
                &&& action.body@ == remove_port_body(protocol, external_port)
                &&& #[trigger] send.ensures((action,), reply)
                &&& r == ack_outcome(DELETE_PORT_RESPONSE_TAG@, reply)
            },
{
    let action = remove_port_action(gateway, protocol, external_port);
    let reply = send(action);
    remove_port_reply(reply)
}

} // verus!
