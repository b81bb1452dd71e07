use upnp_rs::error::{Error, MessageFormatError, ValueSource};
use upnp_rs::headers::{check_empty, check_not_empty, check_parsed_value, check_required, Headers};
use upnp_rs::httpu::{multicast_collect, on_receive, socket_plan, Options, RecvAction, RecvEvent, RequestBuilder, Response, SocketAddress};
use upnp_rs::interface::{IpAddress, IP};
use upnp_rs::text::{decimal_string, parse_unsigned};

const E1: &str = "HTTP/1.1 200 OK\r\nCACHE-CONTROL: max-age=1800\r\nDATE: Thu, 01 Jan 2020 00:00:00 GMT\r\nEXT:\r\nLOCATION: http://10.0.0.5:80/desc.xml\r\nSERVER: unix/5.1 UPnP/1.0 MyProduct/1.0\r\nST: upnp:rootdevice\r\nUSN: uuid:1234::upnp:rootdevice\r\n\r\n";

#[test]
fn request_serialization() {
    let mut b = RequestBuilder::new("M-SEARCH");
    b.add_header("HOST", "239.255.255.250:1900");
    b.add_header("MAN", "\"ssdp:discover\"");
    b.add_header("MX", "2");
    b.add_header("ST", "upnp:rootdevice");
    let text = b.build().to_string();
    assert!(text.starts_with("M-SEARCH * HTTP/1.1\r\n"));
    assert!(text.ends_with("\r\n\r\n"));
    assert_eq!(
        text,
        "M-SEARCH * HTTP/1.1\r\nHOST: 239.255.255.250:1900\r\nMAN: \"ssdp:discover\"\r\nMX: 2\r\nST: upnp:rootdevice\r\n\r\n"
    );
}

#[test]
fn request_builder_resource_and_replace() {
    let mut b = RequestBuilder::new("NOTIFY");
    b.for_resource("/x");
    b.add_header("A", "1");
    b.add_header("A", "2");
    assert_eq!(b.build().to_string(), "NOTIFY /x HTTP/1.1\r\nA: 2\r\n\r\n");
    let mut c = RequestBuilder::new("NOTIFY");
    c.add_header("A", "1");
    c.no_headers();
    c.for_any_resource();
    assert_eq!(c.build().to_string(), "NOTIFY * HTTP/1.1\r\n\r\n");
}

#[test]
fn response_parse() {
    let r = Response::parse(E1.as_bytes()).unwrap();
    assert_eq!(r.status.version, "1.1");
    assert_eq!(r.status.code, 200);
    assert_eq!(r.status.message, "OK");
    assert_eq!(r.header("LOCATION").unwrap(), "http://10.0.0.5:80/desc.xml");
    assert_eq!(r.header("EXT").unwrap(), "");
    assert_eq!(r.headers.len(), 7);
    assert!(r.body.is_none());
}

#[test]
fn response_parse_case_duplicates_and_body() {
    let text = "HTTP/1.1 200 OK\r\nst :  one\r\nSt: two\r\nUsn:\tx\r\n\r\nBODY";
    let r = Response::parse(text.as_bytes()).unwrap();
    assert_eq!(r.header("ST").unwrap(), "two");
    assert_eq!(r.header("USN").unwrap(), "x");
    assert_eq!(r.headers.len(), 2);
    assert_eq!(r.body.unwrap(), b"BODY".to_vec());
}

#[test]
fn response_round_trip_of_headers() {
    let r = Response::parse(E1.as_bytes()).unwrap();
    let mut b = RequestBuilder::new("X");
    for (k, v) in &r.headers.entries {
        b.add_header(k, v);
    }
    let text = b.build().to_string();
    let head = &text["X * HTTP/1.1\r\n".len()..];
    let original = &E1["HTTP/1.1 200 OK\r\n".len()..];
    let norm = |s: &str| s.replace(": ", ":");
    assert_eq!(norm(head), norm(original));
}

#[test]
fn response_parse_errors() {
    assert!(matches!(Response::parse(&[0xff, 0xfe, b'\r', b'\n', b'\r', b'\n']), Err(MessageFormatError::SourceEncoding)));
    match Response::parse(b"GARBAGE\r\n\r\n") {
        Err(MessageFormatError::InvalidValue { source: ValueSource::Header, name, value }) => {
            assert_eq!(name, "STATUS");
            assert_eq!(value, "GARBAGE");
        }
        other => panic!("unexpected {:?}", other),
    }
    match Response::parse(b"HTTP/1.1 404 Not Found\r\n\r\n") {
        Err(MessageFormatError::InvalidValue { name, value, .. }) => {
            assert_eq!(name, "STATUS");
            assert_eq!(value, "404");
        }
        other => panic!("unexpected {:?}", other),
    }
    match Response::parse(b"HTTP/1.1 200 OK\r\nno colon here\r\n\r\n") {
        Err(MessageFormatError::InvalidValue { name, value, .. }) => {
            assert_eq!(name, "?");
            assert_eq!(value, "no colon here");
        }
        other => panic!("unexpected {:?}", other),
    }
}

#[test]
fn response_parse_non_ascii_value() {
    let r = Response::parse("HTTP/1.1 200 OK\r\nSERVER: Grüße/1.0\r\n\r\n".as_bytes()).unwrap();
    assert_eq!(r.header("SERVER").unwrap(), "Grüße/1.0");
}

#[test]
fn receive_loop_keeps_good_datagrams() {
    let datagrams = vec![E1.as_bytes().to_vec(), b"GARBAGE\r\n\r\n".to_vec(), E1.as_bytes().to_vec()];
    let responses = multicast_collect(&datagrams);
    assert_eq!(responses.len(), 2);
    let none: Vec<Vec<u8>> = vec![];
    assert_eq!(multicast_collect(&none).len(), 0);
    let three = vec![E1.as_bytes().to_vec(); 3];
    assert_eq!(multicast_collect(&three).len(), 3);
}

#[test]
fn receive_steps() {
    let mut responses = Vec::new();
    assert!(matches!(on_receive(&mut responses, RecvEvent::Datagram(b"GARBAGE\r\n\r\n".to_vec())), RecvAction::Continue));
    assert_eq!(responses.len(), 0);
    assert!(matches!(on_receive(&mut responses, RecvEvent::Datagram(E1.as_bytes().to_vec())), RecvAction::Continue));
    assert_eq!(responses.len(), 1);
    assert!(matches!(on_receive(&mut responses, RecvEvent::WouldBlock), RecvAction::Finish));
    match on_receive(&mut responses, RecvEvent::Failed("reset".to_string())) {
        RecvAction::Fail(Error::NetworkTransport(m)) => assert_eq!(m, "reset"),
        _ => panic!("expected a transport failure"),
    }
    assert_eq!(responses.len(), 1);
}

#[test]
fn header_checks() {
    let mut h = Headers::new();
    h.insert("DATE".to_string(), "x".to_string());
    assert!(check_required(&h, &["DATE"]).is_ok());
    match check_required(&h, &["LOCATION", "DATE", "USN"]) {
        Err(MessageFormatError::MissingRequiredValue { source: ValueSource::Header, name }) => {
            assert_eq!(name, "LOCATION, USN")
        }
        other => panic!("unexpected {:?}", other),
    }
    assert!(check_empty("  ", "EXT").is_ok());
    assert!(check_empty("x", "EXT").is_err());
    assert_eq!(check_parsed_value("+42", "BOOTID.UPNP.ORG", u64::MAX).unwrap(), 42);
    assert!(check_parsed_value("70000", "SEARCHPORT.UPNP.ORG", 65535).is_err());
    assert!(check_parsed_value("", "X", 10).is_err());
    let v = " value ".to_string();
    assert_eq!(check_not_empty(Some(&v), "default"), "value");
    let blank = "   ".to_string();
    assert_eq!(check_not_empty(Some(&blank), "default"), "default");
    assert_eq!(check_not_empty(None, "default"), "default");
}

#[test]
fn numbers() {
    assert_eq!(decimal_string(0), "0");
    assert_eq!(decimal_string(1800), "1800");
    assert_eq!(decimal_string(u64::MAX), "18446744073709551615");
    let max: Vec<char> = "18446744073709551615".chars().collect();
    assert_eq!(parse_unsigned(&max, u64::MAX), Some(u64::MAX));
    let over: Vec<char> = "18446744073709551616".chars().collect();
    assert_eq!(parse_unsigned(&over, u64::MAX), None);
    let bad: Vec<char> = "12a".chars().collect();
    assert_eq!(parse_unsigned(&bad, u64::MAX), None);
}

#[test]
fn socket_plans() {
    let to = SocketAddress { ip: IpAddress::V4(239, 255, 255, 250), port: 1900 };
    let mut o = Options::new();
    o.local_network_only = true;
    let p = socket_plan(&to, None, &o).unwrap();
    assert_eq!(p.local, SocketAddress { ip: IpAddress::V4(0, 0, 0, 0), port: 0 });
    assert!(p.join_multicast_v4);
    assert_eq!(p.multicast_ttl_v4, Some(1));
    o.network_version = Some(IP::V6);
    assert!(matches!(socket_plan(&to, None, &o), Err(Error::MessageFormat(MessageFormatError::InvalidValue { source: ValueSource::Socket, .. }))));
    let to6 = SocketAddress { ip: IpAddress::V6(0xff02, 0, 0, 0, 0, 0, 0, 0xc), port: 1900 };
    let p6 = socket_plan(&to6, None, &o).unwrap();
    assert!(!p6.join_multicast_v4);
    assert_eq!(p6.multicast_ttl_v4, None);
    assert_eq!(p6.local.ip, IpAddress::V6(0, 0, 0, 0, 0, 0, 0, 0));
}

#[test]
fn status_line_version_grammar() {
    assert!(Response::parse(b"HTTP/1 200 OK\r\n\r\n").is_err());
    assert!(Response::parse(b"HTTP/1.1.1 200 OK\r\n\r\n").is_err());
    assert!(Response::parse(b"HTTP/1. 200 OK\r\n\r\n").is_err());
    assert_eq!(Response::parse(b"HTTP/10.20 200 OK\r\n\r\n").unwrap().status.version, "10.20");
}

#[test]
fn headers_used_in_order() {
    let r = Response::parse(E1.as_bytes()).unwrap();
    assert_eq!(r.headers_used(), vec!["CACHE-CONTROL", "DATE", "EXT", "LOCATION", "SERVER", "ST", "USN"]);
}
