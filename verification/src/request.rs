//! The SOAP requests of the three gateway actions.

use crate::address::Ipv4Address;
use crate::decimal::{decimal, push_decimal};
use crate::gateway::Gateway;
use crate::pattern::{occur_in_order, occurs_at, occurs_in};
use crate::protocol::PortMappingProtocol;
use vstd::prelude::*;
use vstd::string::*;

verus! {

/// The body of the request for the external address.
pub const EXTERNAL_IP_REQUEST: &'static str =
    "<SOAP-ENV:Envelope SOAP-ENV:encodingStyle=\"http://schemas.xmlsoap.org/soap/encoding/\" xmlns:SOAP-ENV=\"http://schemas.xmlsoap.org/soap/envelope/\">\n    <SOAP-ENV:Body>\n        <m:GetExternalIPAddress xmlns:m=\"urn:schemas-upnp-org:service:WANIPConnection:1\">\n        </m:GetExternalIPAddress>\n    </SOAP-ENV:Body>\n</SOAP-ENV:Envelope>";

/// The `SOAPAction` header of the request for the external address.
pub const GET_EXTERNAL_IP_SOAP_ACTION: &'static str =
    "\"urn:schemas-upnp-org:service:WANIPConnection:1#GetExternalIPAddress\"";

/// The `SOAPAction` header of the request that adds a port mapping.
pub const ADD_PORT_SOAP_ACTION: &'static str =
    "\"urn:schemas-upnp-org:service:WANIPConnection:1#AddPortMapping\"";

/// The `SOAPAction` header of the request that deletes a port mapping.
pub const DELETE_PORT_SOAP_ACTION: &'static str =
    "\"urn:schemas-upnp-org:service:WANIPConnection:1#DeletePortMapping\"";

/// The add-mapping envelope up to its first parameter.
pub const ADD_PORT_HEAD: &'static str =
    "<?xml version=\"1.0\"?>\n<s:Envelope xmlns:s=\"http://schemas.xmlsoap.org/soap/envelope/\" s:encodingStyle=\"http://schemas.xmlsoap.org/soap/encoding/\">\n<s:Body>\n    <u:AddPortMapping xmlns:u=\"urn:schemas-upnp-org:service:WANIPConnection:1\">\n        ";

/// What stands between two parameters of the add-mapping envelope.
pub const ADD_PORT_GAP: &'static str = "\n        ";

/// The add-mapping envelope after its last parameter.
pub const ADD_PORT_TAIL: &'static str =
    "\n    </u:AddPortMapping>\n</s:Body>\n</s:Envelope>\n";

/// The delete-mapping envelope up to its first parameter.
pub const DELETE_PORT_HEAD: &'static str =
    "<?xml version=\"1.0\"?>\n<s:Envelope xmlns:s=\"http://schemas.xmlsoap.org/soap/envelope/\" s:encodingStyle=\"http://schemas.xmlsoap.org/soap/encoding/\">\n  <s:Body>\n    <u:DeletePortMapping xmlns:u=\"urn:schemas-upnp-org:service:WANIPConnection:1\">\n      ";

/// What stands between two parameters of the delete-mapping envelope.
pub const DELETE_PORT_GAP: &'static str = "\n      ";

/// The delete-mapping envelope after its last parameter.
pub const DELETE_PORT_TAIL: &'static str =
    "\n    </u:DeletePortMapping>\n  </s:Body>\n</s:Envelope>\n";

/// The element that names the protocol of a mapping.
pub const NEW_PROTOCOL: &'static str = "NewProtocol";

/// The element that names the external port of a mapping.
pub const NEW_EXTERNAL_PORT: &'static str = "NewExternalPort";

/// The element that names the host a mapping forwards to.
pub const NEW_INTERNAL_CLIENT: &'static str = "NewInternalClient";

/// The element that names the port a mapping forwards to.
pub const NEW_INTERNAL_PORT: &'static str = "NewInternalPort";

/// The element that gives the lifetime of a mapping in seconds.
pub const NEW_LEASE_DURATION: &'static str = "NewLeaseDuration";

/// The element that describes a mapping.
pub const NEW_PORT_MAPPING_DESCRIPTION: &'static str = "NewPortMappingDescription";

/// The element that switches a mapping on.
pub const NEW_ENABLED: &'static str = "NewEnabled";

/// The element that names the remote host a mapping is open to.
pub const NEW_REMOTE_HOST: &'static str = "NewRemoteHost";

/// One request to a gateway: where to post it, the `SOAPAction` header
/// that goes with it, and its XML body.
#[derive(Debug)]
pub struct Action {
    /// The control URL of the gateway.
    pub url: String,
    /// The value of the `SOAPAction` header.
    pub soap_action: String,
    /// The SOAP envelope.
    pub body: String,
}

/// The start tag of the element `name`.
pub open spec fn start_tag(name: Seq<char>) -> Seq<char> {
    seq!['<'] + name + seq!['>']
}

/// The end tag of the element `name`.
pub open spec fn end_tag(name: Seq<char>) -> Seq<char> {
    seq!['<', '/'] + name + seq!['>']
}

/// The element `name` with `content` between its tags. The content stands
/// as it is given: nothing in it is escaped.
pub open spec fn element(name: Seq<char>, content: Seq<char>) -> Seq<char> {
    start_tag(name) + content + end_tag(name)
}

/// The body that asks a gateway to forward `external_port` to
/// `internal_client` at `internal_port`: the eight parameters in their
/// fixed order, the mapping enabled and open to any remote host.
pub open spec fn add_port_body(
    protocol: PortMappingProtocol,
    external_port: u16,
    internal_client: Seq<char>,
    internal_port: u16,
    lease_duration: u32,
    description: Seq<char>,
) -> Seq<char> {
    ADD_PORT_HEAD@ + element(NEW_PROTOCOL@, protocol.literal()) + ADD_PORT_GAP@ + element(
        NEW_EXTERNAL_PORT@,
        decimal(external_port as nat),
    ) + ADD_PORT_GAP@ + element(NEW_INTERNAL_CLIENT@, internal_client) + ADD_PORT_GAP@ + element(
        NEW_INTERNAL_PORT@,
        decimal(internal_port as nat),
    ) + ADD_PORT_GAP@ + element(NEW_LEASE_DURATION@, decimal(lease_duration as nat))
        + ADD_PORT_GAP@ + element(NEW_PORT_MAPPING_DESCRIPTION@, description) + ADD_PORT_GAP@
        + element(NEW_ENABLED@, seq!['1']) + ADD_PORT_GAP@ + element(
        NEW_REMOTE_HOST@,
        Seq::<char>::empty(),
    ) + ADD_PORT_TAIL@
}

/// The body that asks a gateway to stop forwarding `external_port`: the
/// protocol, the external port and an empty remote host, which stands for
/// any remote host, in this order and nothing else.
pub open spec fn remove_port_body(protocol: PortMappingProtocol, external_port: u16) -> Seq<
    char,
> {
    DELETE_PORT_HEAD@ + element(NEW_PROTOCOL@, protocol.literal()) + DELETE_PORT_GAP@ + element(
        NEW_EXTERNAL_PORT@,
        decimal(external_port as nat),
    ) + DELETE_PORT_GAP@ + element(NEW_REMOTE_HOST@, Seq::<char>::empty()) + DELETE_PORT_TAIL@
}

/// Appends the start tag of the element `name` to `out`.
fn push_start_tag(out: &mut String, name: &str)
    ensures
        final(out)@ == old(out)@ + start_tag(name@),
{
    proof {
        reveal_strlit("<");
        reveal_strlit(">");
    }
    out.append("<");
    out.append(name);
    out.append(">");
    assert(final(out)@ =~= old(out)@ + start_tag(name@));
}

/// Appends the end tag of the element `name` to `out`.
fn push_end_tag(out: &mut String, name: &str)
    ensures
        final(out)@ == old(out)@ + end_tag(name@),
{
    proof {
        reveal_strlit("</");
        reveal_strlit(">");
    }
    out.append("</");
    out.append(name);
    out.append(">");
    assert(final(out)@ =~= old(out)@ + end_tag(name@));
}

/// Appends the element `name` with the text `content` to `out`.
fn push_text_element(out: &mut String, name: &str, content: &str)
    ensures
        final(out)@ == old(out)@ + element(name@, content@),
{
    push_start_tag(out, name);
    out.append(content);
    push_end_tag(out, name);
    assert(final(out)@ =~= old(out)@ + element(name@, content@));
}

/// Appends the element `name` with the decimal notation of `value` to `out`.
fn push_number_element(out: &mut String, name: &str, value: u32)
    ensures
        final(out)@ == old(out)@ + element(name@, decimal(value as nat)),
{
    push_start_tag(out, name);
    push_decimal(out, value);
    push_end_tag(out, name);
    assert(final(out)@ =~= old(out)@ + element(name@, decimal(value as nat)));
}

/// The request for the gateway's external address. Its header and body
/// are the same for every gateway and on every call.
pub fn external_ip_action(gateway: &Gateway) -> (action: Action)
    ensures
        action.url@ == gateway.url(),
        action.soap_action@ == GET_EXTERNAL_IP_SOAP_ACTION@,
        action.body@ == EXTERNAL_IP_REQUEST@,
{
    Action {
        url: gateway.control_endpoint(),
        soap_action: String::from_str(GET_EXTERNAL_IP_SOAP_ACTION),
        body: String::from_str(EXTERNAL_IP_REQUEST),
    }
}

/// The request that adds a port mapping. A lease duration of zero asks
/// for a permanent mapping.
pub fn add_port_action(
    gateway: &Gateway,
    protocol: PortMappingProtocol,
    external_port: u16,
    internal_client: &str,
    internal_port: u16,
    lease_duration: u32,
    description: &str,
) -> (action: Action)
    ensures
        action.url@ == gateway.url(),
        action.soap_action@ == ADD_PORT_SOAP_ACTION@,
        action.body@ == add_port_body(
            protocol,
            external_port,
            internal_client@,
            internal_port,
            lease_duration,
            description@,
        ),
{
    proof {
        reveal_strlit("1");
        reveal_strlit("");
    }
    assert("1"@ =~= seq!['1']);
    assert(""@ =~= Seq::<char>::empty());
    let mut body = String::from_str(ADD_PORT_HEAD);
    push_text_element(&mut body, NEW_PROTOCOL, protocol.as_str());
    body.append(ADD_PORT_GAP);
    push_number_element(&mut body, NEW_EXTERNAL_PORT, external_port as u32);
    body.append(ADD_PORT_GAP);
    push_text_element(&mut body, NEW_INTERNAL_CLIENT, internal_client);
    body.append(ADD_PORT_GAP);
    push_number_element(&mut body, NEW_INTERNAL_PORT, internal_port as u32);
    body.append(ADD_PORT_GAP);
    push_number_element(&mut body, NEW_LEASE_DURATION, lease_duration);
    body.append(ADD_PORT_GAP);
    push_text_element(&mut body, NEW_PORT_MAPPING_DESCRIPTION, description);
    body.append(ADD_PORT_GAP);
    push_text_element(&mut body, NEW_ENABLED, "1");
    body.append(ADD_PORT_GAP);
    push_text_element(&mut body, NEW_REMOTE_HOST, "");
    body.append(ADD_PORT_TAIL);
    Action {
        url: gateway.control_endpoint(),
        soap_action: String::from_str(ADD_PORT_SOAP_ACTION),
        body,
    }
}

/// The request that adds a port mapping to an IPv4 host: the internal
/// client is the dotted-quad notation of `internal_address`.
pub fn add_port_v4_action(
    gateway: &Gateway,
    protocol: PortMappingProtocol,
    external_port: u16,
    internal_address: Ipv4Address,
    internal_port: u16,
    lease_duration: u32,
    description: &str,
) -> (action: Action)
    ensures
        action.url@ == gateway.url(),
        action.soap_action@ == ADD_PORT_SOAP_ACTION@,
        action.body@ == add_port_body(
            protocol,
            external_port,
            internal_address.dotted_quad(),
            internal_port,
            lease_duration,
            description@,
        ),
{
    let internal_client = internal_address.to_text();
    add_port_action(
        gateway,
        protocol,
        external_port,
        internal_client.as_str(),
        internal_port,
        lease_duration,
        description,
    )
}

/// The request that removes a port mapping.
pub fn remove_port_action(
    gateway: &Gateway,
    protocol: PortMappingProtocol,
    external_port: u16,
) -> (action: Action)
    ensures
        action.url@ == gateway.url(),
        action.soap_action@ == DELETE_PORT_SOAP_ACTION@,
        action.body@ == remove_port_body(protocol, external_port),
{
    proof {
        reveal_strlit("");
    }
    assert(""@ =~= Seq::<char>::empty());
    let mut body = String::from_str(DELETE_PORT_HEAD);
    push_text_element(&mut body, NEW_PROTOCOL, protocol.as_str());
    body.append(DELETE_PORT_GAP);
    push_number_element(&mut body, NEW_EXTERNAL_PORT, external_port as u32);
    body.append(DELETE_PORT_GAP);
    push_text_element(&mut body, NEW_REMOTE_HOST, "");
    body.append(DELETE_PORT_TAIL);
    Action {
        url: gateway.control_endpoint(),
        soap_action: String::from_str(DELETE_PORT_SOAP_ACTION),
        body,
    }
}

/// A text occurs in whatever is written around it.
pub proof fn lemma_occurs_between(before: Seq<char>, text: Seq<char>, after: Seq<char>)
    ensures
        occurs_in(text, before + text + after),
{
    lemma_occurs_at_between(before, text, after);
}

/// A text stands in whatever is written around it, right after what is
/// written before it.
pub proof fn lemma_occurs_at_between(before: Seq<char>, text: Seq<char>, after: Seq<char>)
    ensures
        occurs_at(text, before + text + after, before.len() as int),
{
    let whole = before + text + after;
    let at = before.len() as int;
    assert(whole.subrange(at, at + text.len()) =~= text);
}

/// A text that stands before texts that stand in order stands in order
/// with them.
pub proof fn lemma_in_order_step(
    part: Seq<char>,
    rest: Seq<Seq<char>>,
    text: Seq<char>,
    from: int,
    at: int,
)
    requires
        from <= at,
        occurs_at(part, text, at),
        occur_in_order(rest, text, at + part.len()),
    ensures
        occur_in_order(seq![part] + rest, text, from),
{
    let parts = seq![part] + rest;
    assert(parts[0] == part);
    assert(parts.drop_first() =~= rest);
}

/// The eight parameters of an add-mapping body stand in it in their fixed
/// order: protocol, external port, internal client, internal port, lease
/// duration, description, enabled, remote host.
pub proof fn lemma_add_port_body_order(
    protocol: PortMappingProtocol,
    external_port: u16,
    internal_client: Seq<char>,
    internal_port: u16,
    lease_duration: u32,
    description: Seq<char>,
)
    ensures
        occur_in_order(
            seq![
                element(NEW_PROTOCOL@, protocol.literal()),
                element(NEW_EXTERNAL_PORT@, decimal(external_port as nat)),
                element(NEW_INTERNAL_CLIENT@, internal_client),
                element(NEW_INTERNAL_PORT@, decimal(internal_port as nat)),
                element(NEW_LEASE_DURATION@, decimal(lease_duration as nat)),
                element(NEW_PORT_MAPPING_DESCRIPTION@, description),
                element(NEW_ENABLED@, seq!['1']),
                element(NEW_REMOTE_HOST@, Seq::<char>::empty()),
            ],
            add_port_body(
                protocol,
                external_port,
                internal_client,
                internal_port,
                lease_duration,
                description,
            ),
            0,
        ),
{
    let body = add_port_body(
        protocol,
        external_port,
        internal_client,
        internal_port,
        lease_duration,
        description,
    );
    let gap = ADD_PORT_GAP@;
    let e1 = element(NEW_PROTOCOL@, protocol.literal());
    let e2 = element(NEW_EXTERNAL_PORT@, decimal(external_port as nat));
    let e3 = element(NEW_INTERNAL_CLIENT@, internal_client);
    let e4 = element(NEW_INTERNAL_PORT@, decimal(internal_port as nat));
    let e5 = element(NEW_LEASE_DURATION@, decimal(lease_duration as nat));
    let e6 = element(NEW_PORT_MAPPING_DESCRIPTION@, description);
    let e7 = element(NEW_ENABLED@, seq!['1']);
    let e8 = element(NEW_REMOTE_HOST@, Seq::<char>::empty());
    let b1 = ADD_PORT_HEAD@;
    let b2 = b1 + e1 + gap;
    let b3 = b2 + e2 + gap;
    let b4 = b3 + e3 + gap;
    let b5 = b4 + e4 + gap;
    let b6 = b5 + e5 + gap;
    let b7 = b6 + e6 + gap;
    let b8 = b7 + e7 + gap;
    let a8 = ADD_PORT_TAIL@;
    let a7 = gap + e8 + a8;
    let a6 = gap + e7 + a7;
    let a5 = gap + e6 + a6;
    let a4 = gap + e5 + a5;
    let a3 = gap + e4 + a4;
    let a2 = gap + e3 + a3;
    let a1 = gap + e2 + a2;
    assert(body =~= b8 + e8 + a8);
    assert(body =~= b7 + e7 + a7);
    assert(body =~= b6 + e6 + a6);
    assert(body =~= b5 + e5 + a5);
    assert(body =~= b4 + e4 + a4);
    assert(body =~= b3 + e3 + a3);
    assert(body =~= b2 + e2 + a2);
    assert(body =~= b1 + e1 + a1);
    lemma_occurs_at_between(b1, e1, a1);
    lemma_occurs_at_between(b2, e2, a2);
    lemma_occurs_at_between(b3, e3, a3);
    lemma_occurs_at_between(b4, e4, a4);
    lemma_occurs_at_between(b5, e5, a5);
    lemma_occurs_at_between(b6, e6, a6);
    lemma_occurs_at_between(b7, e7, a7);
    lemma_occurs_at_between(b8, e8, a8);
    let r8 = Seq::<Seq<char>>::empty();
    let r7 = seq![e8] + r8;
    let r6 = seq![e7] + r7;
    let r5 = seq![e6] + r6;
    let r4 = seq![e5] + r5;
    let r3 = seq![e4] + r4;
    let r2 = seq![e3] + r3;
    let r1 = seq![e2] + r2;
    let r0 = seq![e1] + r1;
    lemma_in_order_step(e8, r8, body, (b7.len() + e7.len()) as int, b8.len() as int);
    lemma_in_order_step(e7, r7, body, (b6.len() + e6.len()) as int, b7.len() as int);
    lemma_in_order_step(e6, r6, body, (b5.len() + e5.len()) as int, b6.len() as int);
    lemma_in_order_step(e5, r5, body, (b4.len() + e4.len()) as int, b5.len() as int);
    lemma_in_order_step(e4, r4, body, (b3.len() + e3.len()) as int, b4.len() as int);
    lemma_in_order_step(e3, r3, body, (b2.len() + e2.len()) as int, b3.len() as int);
    lemma_in_order_step(e2, r2, body, (b1.len() + e1.len()) as int, b2.len() as int);
    lemma_in_order_step(e1, r1, body, 0, b1.len() as int);
    assert(r0 =~= seq![e1, e2, e3, e4, e5, e6, e7, e8]);
}

/// The three parameters of a delete-mapping body stand in it in their
/// fixed order: protocol, external port, and a remote host with nothing
/// in it.
pub proof fn lemma_remove_port_body_order(protocol: PortMappingProtocol, external_port: u16)
    ensures
        occur_in_order(
            seq![
                element(NEW_PROTOCOL@, protocol.literal()),
                element(NEW_EXTERNAL_PORT@, decimal(external_port as nat)),
                start_tag(NEW_REMOTE_HOST@) + end_tag(NEW_REMOTE_HOST@),
            ],
            remove_port_body(protocol, external_port),
            0,
        ),
{
    let body = remove_port_body(protocol, external_port);
    let gap = DELETE_PORT_GAP@;
    let e1 = element(NEW_PROTOCOL@, protocol.literal());
    let e2 = element(NEW_EXTERNAL_PORT@, decimal(external_port as nat));
    let e3 = start_tag(NEW_REMOTE_HOST@) + end_tag(NEW_REMOTE_HOST@);
    assert(e3 =~= element(NEW_REMOTE_HOST@, Seq::<char>::empty()));
    let b1 = DELETE_PORT_HEAD@;
    let b2 = b1 + e1 + gap;
    let b3 = b2 + e2 + gap;
    let a3 = DELETE_PORT_TAIL@;
    let a2 = gap + e3 + a3;
    let a1 = gap + e2 + a2;
    assert(body =~= b3 + e3 + a3);
    assert(body =~= b2 + e2 + a2);
    assert(body =~= b1 + e1 + a1);
    lemma_occurs_at_between(b1, e1, a1);
    lemma_occurs_at_between(b2, e2, a2);
    lemma_occurs_at_between(b3, e3, a3);
    let r3 = Seq::<Seq<char>>::empty();
    let r2 = seq![e3] + r3;
    let r1 = seq![e2] + r2;
    let r0 = seq![e1] + r1;
    lemma_in_order_step(e3, r3, body, (b2.len() + e2.len()) as int, b3.len() as int);
    lemma_in_order_step(e2, r2, body, (b1.len() + e1.len()) as int, b2.len() as int);
    lemma_in_order_step(e1, r1, body, 0, b1.len() as int);
    assert(r0 =~= seq![e1, e2, e3]);
}

/// Every add-mapping body holds each parameter in the element of its
/// name, and says that the mapping is enabled and open to any remote host.
pub proof fn lemma_add_port_body_elements(
    protocol: PortMappingProtocol,
    external_port: u16,
    internal_client: Seq<char>,
    internal_port: u16,
    lease_duration: u32,
    description: Seq<char>,
)
    ensures
        ({
            let body = add_port_body(
                protocol,
                external_port,
                internal_client,
                internal_port,
                lease_duration,
                description,
            );
            &&& occurs_in(element(NEW_PROTOCOL@, protocol.literal()), body)
            &&& occurs_in(element(NEW_EXTERNAL_PORT@, decimal(external_port as nat)), body)
            &&& occurs_in(element(NEW_INTERNAL_CLIENT@, internal_client), body)
            &&& occurs_in(element(NEW_INTERNAL_PORT@, decimal(internal_port as nat)), body)
            &&& occurs_in(element(NEW_LEASE_DURATION@, decimal(lease_duration as nat)), body)
            &&& occurs_in(element(NEW_PORT_MAPPING_DESCRIPTION@, description), body)
            &&& occurs_in(element(NEW_ENABLED@, seq!['1']), body)
            &&& occurs_in(element(NEW_REMOTE_HOST@, Seq::<char>::empty()), body)
        }),
{
    let body = add_port_body(
        protocol,
        external_port,
        internal_client,
        internal_port,
        lease_duration,
        description,
    );
    let gap = ADD_PORT_GAP@;
    let e1 = element(NEW_PROTOCOL@, protocol.literal());
    let e2 = element(NEW_EXTERNAL_PORT@, decimal(external_port as nat));
    let e3 = element(NEW_INTERNAL_CLIENT@, internal_client);
    let e4 = element(NEW_INTERNAL_PORT@, decimal(internal_port as nat));
    let e5 = element(NEW_LEASE_DURATION@, decimal(lease_duration as nat));
    let e6 = element(NEW_PORT_MAPPING_DESCRIPTION@, description);
    let e7 = element(NEW_ENABLED@, seq!['1']);
    let e8 = element(NEW_REMOTE_HOST@, Seq::<char>::empty());
    let b1 = ADD_PORT_HEAD@;
    let b2 = b1 + e1 + gap;
    let b3 = b2 + e2 + gap;
    let b4 = b3 + e3 + gap;
    let b5 = b4 + e4 + gap;
    let b6 = b5 + e5 + gap;
    let b7 = b6 + e6 + gap;
    let b8 = b7 + e7 + gap;
    let a8 = ADD_PORT_TAIL@;
    let a7 = gap + e8 + a8;
    let a6 = gap + e7 + a7;
    let a5 = gap + e6 + a6;
    let a4 = gap + e5 + a5;
    let a3 = gap + e4 + a4;
    let a2 = gap + e3 + a3;
    let a1 = gap + e2 + a2;
    assert(body =~= b8 + e8 + a8);
    assert(body =~= b7 + e7 + a7);
    assert(body =~= b6 + e6 + a6);
    assert(body =~= b5 + e5 + a5);
    assert(body =~= b4 + e4 + a4);
    assert(body =~= b3 + e3 + a3);
    assert(body =~= b2 + e2 + a2);
    assert(body =~= b1 + e1 + a1);
    lemma_occurs_between(b1, e1, a1);
    lemma_occurs_between(b2, e2, a2);
    lemma_occurs_between(b3, e3, a3);
    lemma_occurs_between(b4, e4, a4);
    lemma_occurs_between(b5, e5, a5);
    lemma_occurs_between(b6, e6, a6);
    lemma_occurs_between(b7, e7, a7);
    lemma_occurs_between(b8, e8, a8);
}

/// Every delete-mapping body holds the protocol and the external port,
/// each in the element of its name, and a remote-host element with nothing
/// in it.
pub proof fn lemma_remove_port_body_elements(protocol: PortMappingProtocol, external_port: u16)
    ensures
        occurs_in(
            element(NEW_PROTOCOL@, protocol.literal()),
            remove_port_body(protocol, external_port),
        ),
        occurs_in(
            element(NEW_EXTERNAL_PORT@, decimal(external_port as nat)),
            remove_port_body(protocol, external_port),
        ),
        occurs_in(
            start_tag(NEW_REMOTE_HOST@) + end_tag(NEW_REMOTE_HOST@),
            remove_port_body(protocol, external_port),
        ),
{
    let body = remove_port_body(protocol, external_port);
    let gap = DELETE_PORT_GAP@;
    let e1 = element(NEW_PROTOCOL@, protocol.literal());
    let e2 = element(NEW_EXTERNAL_PORT@, decimal(external_port as nat));
    let e3 = element(NEW_REMOTE_HOST@, Seq::<char>::empty());
    let rest = gap + e3 + DELETE_PORT_TAIL@;
    assert(e3 =~= start_tag(NEW_REMOTE_HOST@) + end_tag(NEW_REMOTE_HOST@));
    assert(body =~= DELETE_PORT_HEAD@ + e1 + (gap + e2 + rest));
    assert(body =~= (DELETE_PORT_HEAD@ + e1 + gap) + e2 + rest);
    assert(body =~= (DELETE_PORT_HEAD@ + e1 + gap + e2 + gap) + e3 + DELETE_PORT_TAIL@);
    lemma_occurs_between(DELETE_PORT_HEAD@, e1, gap + e2 + rest);
    lemma_occurs_between(DELETE_PORT_HEAD@ + e1 + gap, e2, rest);
    lemma_occurs_between(DELETE_PORT_HEAD@ + e1 + gap + e2 + gap, e3, DELETE_PORT_TAIL@);
}

} // verus!
