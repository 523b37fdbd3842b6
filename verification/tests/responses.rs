use igd_soap::address::{parse_dotted_quad, Ipv4Address};
use igd_soap::client::{add_port, get_external_ip, remove_port};
use igd_soap::error::{RequestError, TransportError};
use igd_soap::gateway::Gateway;
use igd_soap::protocol::PortMappingProtocol;
use igd_soap::request::Action;
use igd_soap::response::{
    add_port_ack, add_port_reply, address_from_capture, external_ip_reply, extract_address,
    parse_ack, remove_port_ack, remove_port_reply,
};

fn router() -> Gateway {
    Gateway::new(Ipv4Address::new(192, 168, 1, 1), 1900, "/ctl/IPConn".to_string())
}

fn address_element(content: &str) -> String {
    format!(
        "<?xml version=\"1.0\"?><s:Envelope><s:Body><u:GetExternalIPAddressResponse xmlns:u=\"urn:schemas-upnp-org:service:WANIPConnection:1\"><NewExternalIPAddress>{}</NewExternalIPAddress></u:GetExternalIPAddressResponse></s:Body></s:Envelope>",
        content
    )
}

#[test]
fn dotted_quad_text_of_an_address() {
    assert_eq!(Ipv4Address::new(192, 168, 1, 42).to_text(), "192.168.1.42");
    assert_eq!(Ipv4Address::new(0, 0, 0, 0).to_text(), "0.0.0.0");
    assert_eq!(Ipv4Address::new(255, 255, 255, 255).to_text(), "255.255.255.255");
    assert_eq!(Ipv4Address::new(1, 20, 103, 9).octets(), [1, 20, 103, 9]);
}

#[test]
fn parse_dotted_quad_reads_strict_notation() {
    assert_eq!(parse_dotted_quad("1.2.3.4"), Some(Ipv4Address::new(1, 2, 3, 4)));
    assert_eq!(parse_dotted_quad("0.0.0.0"), Some(Ipv4Address::new(0, 0, 0, 0)));
    assert_eq!(parse_dotted_quad("255.255.255.255"), Some(Ipv4Address::new(255, 255, 255, 255)));
    assert_eq!(parse_dotted_quad("10.99.100.199"), Some(Ipv4Address::new(10, 99, 100, 199)));
}

#[test]
fn parse_dotted_quad_rejects_everything_else() {
    let rejected = [
        "", "1", "1.2.3", "1.2.3.", ".1.2.3", "1..2.3", "1.2.3.4.5", "1.2.3.4.", "1.2.3.4 ",
        " 1.2.3.4", "256.1.1.1", "1.256.1.1", "1.1.1.256", "999.1.1.1", "1.2.3.1000",
        "01.2.3.4", "1.2.3.04", "00.0.0.0", "1.2.3.a", "a.b.c.d", "1,2,3,4", "1.2.3.-4",
        "\u{661}.2.3.4", "1.2.3.\u{664}",
    ];
    for text in rejected {
        assert_eq!(parse_dotted_quad(text), None, "{}", text);
    }
}

#[test]
fn parse_dotted_quad_inverts_to_text() {
    let octets = [0u8, 1, 9, 10, 11, 99, 100, 101, 199, 200, 249, 250, 255];
    for a in octets {
        for b in octets {
            let ip = Ipv4Address::new(a, b, b, a);
            assert_eq!(parse_dotted_quad(&ip.to_text()), Some(ip));
            let ip = Ipv4Address::new(b, 7, a, 254);
            assert_eq!(parse_dotted_quad(&ip.to_text()), Some(ip));
        }
    }
}

#[test]
fn address_element_parses_to_that_address() {
    assert_eq!(
        extract_address(&address_element("1.2.3.4")).unwrap(),
        Ipv4Address::new(1, 2, 3, 4)
    );
    assert_eq!(
        extract_address("<NewExternalIPAddress>203.0.113.255</NewExternalIPAddress>").unwrap(),
        Ipv4Address::new(203, 0, 113, 255)
    );
    assert_eq!(
        extract_address(&address_element("0.0.0.0")).unwrap(),
        Ipv4Address::new(0, 0, 0, 0)
    );
}

#[test]
fn address_is_the_content_of_the_element_not_the_reply() {
    let reply = "9.9.9.9<NewExternalIPAddress>1.2.3.4</NewExternalIPAddress>8.8.8.8";
    assert_eq!(extract_address(reply).unwrap(), Ipv4Address::new(1, 2, 3, 4));
    assert!(matches!(extract_address("1.2.3.4"), Err(RequestError::InvalidResponse)));
}

#[test]
fn leftmost_address_element_decides() {
    let reply = format!("{}{}", address_element("1.2.3.4"), address_element("5.6.7.8"));
    assert_eq!(extract_address(&reply).unwrap(), Ipv4Address::new(1, 2, 3, 4));
    let reply = format!("{}{}", address_element("1.2.3.400"), address_element("5.6.7.8"));
    assert!(matches!(extract_address(&reply), Err(RequestError::InvalidResponse)));
    let reply = format!("{}{}", address_element("none"), address_element("5.6.7.8"));
    assert_eq!(extract_address(&reply).unwrap(), Ipv4Address::new(5, 6, 7, 8));
}

#[test]
fn missing_address_element_is_an_invalid_response() {
    assert!(matches!(extract_address(""), Err(RequestError::InvalidResponse)));
    assert!(matches!(
        extract_address("<s:Envelope><s:Body><s:Fault/></s:Body></s:Envelope>"),
        Err(RequestError::InvalidResponse)
    ));
    assert!(matches!(
        extract_address("<NewExternalIPAddress></NewExternalIPAddress>"),
        Err(RequestError::InvalidResponse)
    ));
    assert!(matches!(
        extract_address("<NewExternalIPAddress>1.2.3.4"),
        Err(RequestError::InvalidResponse)
    ));
}

#[test]
fn malformed_address_is_an_invalid_response() {
    for content in
        ["a.b.c.d", "1.2.3", "256.1.1.1", "1.2.3.999", "01.2.3.4", " 1.2.3.4", "1.2.3.4.5", "\u{661}.2.3.4"]
    {
        assert!(
            matches!(
                extract_address(&address_element(content)),
                Err(RequestError::InvalidResponse)
            ),
            "{}",
            content
        );
    }
}

#[test]
fn address_from_capture_reads_the_captured_content() {
    assert_eq!(address_from_capture(Some("10.0.0.1")).unwrap(), Ipv4Address::new(10, 0, 0, 1));
    assert!(matches!(address_from_capture(None), Err(RequestError::InvalidResponse)));
    assert!(matches!(address_from_capture(Some("")), Err(RequestError::InvalidResponse)));
    assert!(matches!(address_from_capture(Some("300.0.0.1")), Err(RequestError::InvalidResponse)));
}

#[test]
fn add_port_ack_is_the_presence_of_the_tag() {
    assert!(add_port_ack("u:AddPortMappingResponse").is_ok());
    assert!(add_port_ack(
        "<s:Body><u:AddPortMappingResponse xmlns:u=\"urn:schemas-upnp-org:service:WANIPConnection:1\"/></s:Body>"
    )
    .is_ok());
    assert!(matches!(add_port_ack(""), Err(RequestError::InvalidResponse)));
    assert!(matches!(add_port_ack("u:AddPortMappingRespons"), Err(RequestError::InvalidResponse)));
    assert!(matches!(add_port_ack("U:ADDPORTMAPPINGRESPONSE"), Err(RequestError::InvalidResponse)));
    assert!(matches!(
        add_port_ack("<m:AddPortMappingResponse/>"),
        Err(RequestError::InvalidResponse)
    ));
    assert!(matches!(
        add_port_ack("<u:DeletePortMappingResponse/>"),
        Err(RequestError::InvalidResponse)
    ));
}

#[test]
fn remove_port_ack_is_the_presence_of_the_tag() {
    assert!(remove_port_ack("xxu:DeletePortMappingResponsexx").is_ok());
    assert!(matches!(remove_port_ack("<s:Fault/>"), Err(RequestError::InvalidResponse)));
    assert!(matches!(
        remove_port_ack("<u:AddPortMappingResponse/>"),
        Err(RequestError::InvalidResponse)
    ));
}

#[test]
fn parse_ack_searches_for_the_given_tag() {
    assert!(parse_ack("abc:Tag1", "c:Tag1").is_ok());
    assert!(parse_ack("anything", "").is_ok());
    assert!(matches!(parse_ack("abc", "abcd"), Err(RequestError::InvalidResponse)));
    assert!(matches!(parse_ack("u:X", "X:u"), Err(RequestError::InvalidResponse)));
}

#[test]
fn add_port_succeeds_when_the_reply_holds_the_tag() {
    let ok = add_port(
        &router(),
        PortMappingProtocol::TCP,
        51413,
        "192.168.1.42",
        51413,
        0,
        "test",
        |_action: Action| Ok("<s:Body><u:AddPortMappingResponse/></s:Body>".to_string()),
    );
    assert!(ok.is_ok());
    let missing = add_port(
        &router(),
        PortMappingProtocol::TCP,
        51413,
        "192.168.1.42",
        51413,
        0,
        "test",
        |_action: Action| Ok("<s:Body><s:Fault>718</s:Fault></s:Body>".to_string()),
    );
    assert!(matches!(missing, Err(RequestError::InvalidResponse)));
}

#[test]
fn remove_port_fails_when_the_reply_lacks_the_tag() {
    let result = remove_port(&router(), PortMappingProtocol::UDP, 500, |_action: Action| {
        Ok("<s:Envelope><s:Body></s:Body></s:Envelope>".to_string())
    });
    assert!(matches!(result, Err(RequestError::InvalidResponse)));
    let result = remove_port(&router(), PortMappingProtocol::UDP, 500, |_action: Action| {
        Ok("<u:DeletePortMappingResponse></u:DeletePortMappingResponse>".to_string())
    });
    assert!(result.is_ok());
}

#[test]
fn get_external_ip_reads_the_reply() {
    let result = get_external_ip(&router(), |_action: Action| Ok(address_element("198.51.100.23")));
    assert_eq!(result.unwrap(), Ipv4Address::new(198, 51, 100, 23));
    let result = get_external_ip(&router(), |_action: Action| Ok("<s:Fault/>".to_string()));
    assert!(matches!(result, Err(RequestError::InvalidResponse)));
}

#[test]
fn transport_failures_pass_through() {
    let result = get_external_ip(&router(), |_action: Action| {
        Err(TransportError::Io("connection refused".to_string()))
    });
    assert!(matches!(
        result,
        Err(RequestError::TransportFailure(TransportError::Io(ref m))) if m == "connection refused"
    ));
    let result = remove_port(&router(), PortMappingProtocol::TCP, 80, |_action: Action| {
        Err(TransportError::Http("bad status line".to_string()))
    });
    assert!(matches!(
        result,
        Err(RequestError::TransportFailure(TransportError::Http(ref m))) if m == "bad status line"
    ));
    let result = add_port(
        &router(),
        PortMappingProtocol::UDP,
        1,
        "10.0.0.2",
        2,
        3,
        "d",
        |_action: Action| Err(TransportError::Http("timed out".to_string())),
    );
    assert!(matches!(result, Err(RequestError::TransportFailure(TransportError::Http(_)))));
}

#[test]
fn replies_are_interpreted_without_a_transport() {
    assert_eq!(
        external_ip_reply(Ok(address_element("172.16.0.9"))).unwrap(),
        Ipv4Address::new(172, 16, 0, 9)
    );
    assert!(matches!(
        external_ip_reply(Err(TransportError::Io("eof".to_string()))),
        Err(RequestError::TransportFailure(TransportError::Io(_)))
    ));
    assert!(add_port_reply(Ok("<u:AddPortMappingResponse/>".to_string())).is_ok());
    assert!(matches!(
        add_port_reply(Ok("<u:DeletePortMappingResponse/>".to_string())),
        Err(RequestError::InvalidResponse)
    ));
    assert!(remove_port_reply(Ok("<u:DeletePortMappingResponse/>".to_string())).is_ok());
    assert!(matches!(
        remove_port_reply(Err(TransportError::Http("500".to_string()))),
        Err(RequestError::TransportFailure(TransportError::Http(_)))
    ));
}

#[test]
fn transport_error_converts_into_request_error() {
    let err = RequestError::from(TransportError::Io("broken pipe".to_string()));
    assert!(matches!(err, RequestError::TransportFailure(TransportError::Io(ref m)) if m == "broken pipe"));
}
