use upnp_rs::discovery::notify::{
    self, device_available_request, device_unavailable_request, device_update_request, next_state, Device,
    DeviceState, Notification,
};
use upnp_rs::discovery::search::{
    collect_answers, search_request, unicast_search_request, Options, Response, ResponseCache, SearchTarget,
};
use upnp_rs::discovery::{ControlPoint, ProductVersion};
use upnp_rs::error::{Error, MessageFormatError, ValueSource};
use upnp_rs::httpu;
use upnp_rs::interface::{ip_address_for_interface, ip_addresses_for_interface, IpAddress, NetworkInterface, IP};
use upnp_rs::SpecVersion;

fn answer(extra: &str, server: &str, usn: &str) -> String {
    format!(
        "HTTP/1.1 200 OK\r\nCACHE-CONTROL: max-age=1800\r\nDATE: Thu, 01 Jan 2020 00:00:00 GMT\r\nEXT:\r\nLOCATION: http://10.0.0.5:80/desc.xml\r\nSERVER: {}\r\nST: upnp:rootdevice\r\nUSN: {}\r\n{}\r\n",
        server, usn, extra
    )
}

fn convert(text: &str) -> Result<Response, Error> {
    let raw = httpu::Response::parse(text.as_bytes()).unwrap();
    Response::from_raw(&raw)
}

fn header_names(o: &Options) -> Vec<String> {
    search_request(o).unwrap().headers.entries.iter().map(|(k, _)| k.clone()).collect()
}

#[test]
fn e1_version_one_answer() {
    let r = convert(&answer("", "unix/5.1 UPnP/1.0 MyProduct/1.0", "uuid:1234::upnp:rootdevice")).unwrap();
    assert_eq!(r.max_age, 1800);
    assert_eq!(r.versions.upnp.name, "UPnP");
    assert_eq!(r.versions.upnp.version, "1.0");
    assert_eq!(r.versions.platform.name, "unix");
    assert_eq!(r.versions.product.name, "MyProduct");
    assert_eq!(r.boot_id, 0);
    assert_eq!(r.config_id, None);
    assert_eq!(r.search_target, SearchTarget::RootDevice);
    assert_eq!(r.location, "http://10.0.0.5:80/desc.xml");
    assert_eq!(r.date, "Thu, 01 Jan 2020 00:00:00 GMT");
    assert_eq!(r.other_headers.len(), 0);
}

#[test]
fn e2_version_two_answer() {
    let extra = "BOOTID.UPNP.ORG: 42\r\nCONFIGID.UPNP.ORG: 7\r\nSEARCHPORT.UPNP.ORG: 49200\r\n";
    let r = convert(&answer(extra, "unix/5.1 UPnP/2.0 MyProduct/1.0", "uuid:1234")).unwrap();
    assert_eq!(r.boot_id, 42);
    assert_eq!(r.config_id, Some(7));
    assert_eq!(r.search_port, Some(49200));
    assert_eq!(r.other_headers.len(), 3);
}

#[test]
fn version_two_optional_values() {
    let extra = "CONFIGID.UPNP.ORG: x\r\nSEARCHPORT.UPNP.ORG: 70000\r\n";
    let r = convert(&answer(extra, "unix/5.1 UPnP/2.0 MyProduct/1.0", "uuid:1")).unwrap();
    assert_eq!(r.boot_id, 0);
    assert_eq!(r.config_id, None);
    assert_eq!(r.search_port, None);
    let bad = convert(&answer("BOOTID.UPNP.ORG: many\r\n", "unix/5.1 UPnP/2.0 MyProduct/1.0", "uuid:1"));
    match bad {
        Err(Error::MessageFormat(MessageFormatError::InvalidValue { name, value, .. })) => {
            assert_eq!(name, "BOOTID.UPNP.ORG");
            assert_eq!(value, "many");
        }
        other => panic!("unexpected {:?}", other),
    }
}

#[test]
fn answer_missing_location() {
    let text = "HTTP/1.1 200 OK\r\nCACHE-CONTROL: max-age=1800\r\nDATE: x\r\nEXT:\r\nSERVER: a/1 UPnP/1.0 b/1\r\nST: upnp:rootdevice\r\nUSN: u\r\n\r\n";
    match convert(text) {
        Err(Error::MessageFormat(MessageFormatError::MissingRequiredValue { source: ValueSource::Header, name })) => {
            assert_eq!(name, "LOCATION")
        }
        other => panic!("unexpected {:?}", other),
    }
}

#[test]
fn answer_bad_server() {
    match convert(&answer("", "just-a-name", "u")) {
        Err(Error::MessageFormat(MessageFormatError::InvalidValue { source: ValueSource::Header, name, value })) => {
            assert_eq!(name, "SERVER");
            assert_eq!(value, "just-a-name");
        }
        other => panic!("unexpected {:?}", other),
    }
    assert!(convert(&answer("", "Linux/5.1, UPnP/1.1, Product Name/2.3", "u")).is_ok());
}

#[test]
fn answer_other_faults() {
    let ext = answer("", "a/1 UPnP/1.0 b/1", "u").replace("EXT:", "EXT: yes");
    assert!(matches!(convert(&ext), Err(Error::MessageFormat(MessageFormatError::InvalidValue { .. }))));
    let cc = answer("", "a/1 UPnP/1.0 b/1", "u").replace("max-age=1800", "no-cache");
    match convert(&cc) {
        Err(Error::MessageFormat(MessageFormatError::InvalidValue { name, value, .. })) => {
            assert_eq!(name, "CACHE-CONTROL");
            assert_eq!(value, "no-cache");
        }
        other => panic!("unexpected {:?}", other),
    }
    let spaced = answer("", "a/1 UPnP/1.0 b/1", "u").replace("max-age=1800", "private, max-age = 60");
    assert_eq!(convert(&spaced).unwrap().max_age, 60);
    let st = answer("", "a/1 UPnP/1.0 b/1", "u").replace("ST: upnp:rootdevice", "ST: nonsense");
    match convert(&st) {
        Err(Error::MessageFormat(MessageFormatError::InvalidValue { source: ValueSource::Field, name, .. })) => {
            assert_eq!(name, "SearchTarget")
        }
        other => panic!("unexpected {:?}", other),
    }
    let defaults = answer("", "a/1 UPnP/1.0 b/1", "u")
        .replace("DATE: Thu, 01 Jan 2020 00:00:00 GMT", "DATE:")
        .replace("LOCATION: http://10.0.0.5:80/desc.xml", "LOCATION:  ");
    let r = convert(&defaults).unwrap();
    assert_eq!(r.date, "Thu, 01 Jan 1970 00:00:00 GMT");
    assert_eq!(r.location, "http://www.example.org");
}

#[test]
fn answers_skip_refused() {
    let good = httpu::Response::parse(answer("", "a/1 UPnP/1.0 b/1", "u").as_bytes()).unwrap();
    let bad = httpu::Response::parse(b"HTTP/1.1 200 OK\r\nST: upnp:rootdevice\r\n\r\n").unwrap();
    let good2 = httpu::Response::parse(answer("", "a/1 UPnP/1.0 b/1", "v").as_bytes()).unwrap();
    let out = collect_answers(&vec![good, bad, good2]);
    assert_eq!(out.len(), 2);
    assert_eq!(out[1].service_name, "v");
}

#[test]
fn version_one_search_headers() {
    let o = Options::default_for(SpecVersion::V10);
    assert_eq!(o.packet_ttl, 4);
    assert_eq!(header_names(&o), vec!["HOST", "MAN", "MX", "ST"]);
    let text = search_request(&o).unwrap().to_string();
    assert_eq!(
        text,
        "M-SEARCH * HTTP/1.1\r\nHOST: 239.255.255.250:1900\r\nMAN: \"ssdp:discover\"\r\nMX: 2\r\nST: upnp:rootdevice\r\n\r\n"
    );
}

#[test]
fn version_one_one_user_agent() {
    let mut o = Options::default_for(SpecVersion::V11);
    o.platform = ProductVersion::for_platform("Linux", "6.1");
    let q = search_request(&o).unwrap();
    let ua = q.headers.get("USER-AGENT").unwrap();
    assert_eq!(ua, "Linux/6.1 UPnP/1.1 upnp-rs/0.1.0");
    let parts: Vec<&str> = ua.split(' ').collect();
    assert_eq!(parts.len(), 3);
    assert!(parts.iter().all(|p| p.contains('/') && !p.trim().is_empty()));
    assert!(q.headers.get("CPFN.UPNP.ORG").is_none());
}

#[test]
fn version_two_needs_control_point() {
    let o = Options::default_for(SpecVersion::V20);
    match o.validate() {
        Err(Error::MessageFormat(MessageFormatError::MissingRequiredValue { source: ValueSource::Field, name })) => {
            assert_eq!(name, "ControlPoint")
        }
        other => panic!("unexpected {:?}", other),
    }
    let cp = ControlPoint { friendly_name: "cp".to_string(), uuid: Some("u-1".to_string()), port: Some(4004) };
    let o = Options::for_control_point(cp);
    assert_eq!(header_names(&o), vec!["HOST", "MAN", "MX", "ST", "USER-AGENT", "CPFN.UPNP.ORG", "CPUUID.UPNP.ORG", "TCPPORT.UPNP.ORG"]);
    let unnamed = Options::for_control_point(ControlPoint { friendly_name: String::new(), uuid: None, port: None });
    assert!(matches!(unnamed.validate(), Err(Error::MessageFormat(MessageFormatError::InvalidValue { .. }))));
}

#[test]
fn max_wait_bounds() {
    let mut o = Options::default_for(SpecVersion::V10);
    for (w, ok) in [(0u8, false), (1, true), (2, true), (120, true), (121, false), (255, false)] {
        o.max_wait_time = w;
        assert_eq!(o.validate().is_ok(), ok, "max_wait_time {}", w);
    }
    o.max_wait_time = 0;
    match o.validate() {
        Err(Error::MessageFormat(MessageFormatError::InvalidValue { name, value, .. })) => {
            assert_eq!(name, "max_wait_time");
            assert_eq!(value, "0");
        }
        other => panic!("unexpected {:?}", other),
    }
}

#[test]
fn product_token_rules() {
    let mut o = Options::default_for(SpecVersion::V11);
    o.product_and_version = Some(ProductVersion::for_product("bad/name", "1.0"));
    assert!(o.validate().is_err());
    o.product_and_version = Some(ProductVersion::for_product("good", "1.0b"));
    assert!(o.validate().is_err());
    o.product_and_version = Some(ProductVersion::for_product("good", "1.0.2"));
    assert!(o.validate().is_ok());
    let mut old = Options::default_for(SpecVersion::V10);
    old.product_and_version = Some(ProductVersion::for_product("bad/name", "x"));
    assert!(old.validate().is_ok());
}

#[test]
fn unicast_search_gating() {
    let o = Options::default_for(SpecVersion::V10);
    assert!(matches!(unicast_search_request(&o), Err(Error::UnsupportedVersion { version: SpecVersion::V10 })));
    let o = Options::default_for(SpecVersion::V11);
    let q = unicast_search_request(&o).unwrap();
    let names: Vec<String> = q.headers.entries.iter().map(|(k, _)| k.clone()).collect();
    assert_eq!(names, vec!["HOST", "MAN", "ST", "USER-AGENT"]);
}

fn device(boot_id: u32) -> Device {
    Device {
        notification_type: SearchTarget::RootDevice,
        service_name: "uuid:1234::upnp:rootdevice".to_string(),
        location: "http://10.0.0.5/desc.xml".to_string(),
        boot_id,
        config_id: 3,
        search_port: Some(49200),
        secure_location: Some("https://10.0.0.5/desc.xml".to_string()),
    }
}

#[test]
fn e5_alive_increments_boot_id() {
    let mut d = device(0);
    let o = notify::Options::default_for(SpecVersion::V11);
    let text = device_available_request(&d, &o).to_string();
    assert!(text.starts_with("NOTIFY * HTTP/1.1\r\n"));
    assert!(text.contains("\r\nBOOTID.UPNP.ORG: 0\r\n"));
    assert!(text.contains("\r\nCACHE-CONTROL: max-age=1800\r\n"));
    assert!(text.contains("\r\nNTS: ssdp:alive\r\n"));
    assert!(text.contains("\r\nSEARCHPORT.UPNP.ORG: 49200\r\n"));
    assert!(!text.contains("SECURELOCATION"));
    d.record_sent();
    assert_eq!(d.boot_id, 1);
}

#[test]
fn boot_id_after_many_sends() {
    let mut d = device(5);
    for _ in 0..7 {
        d.record_sent();
    }
    assert_eq!(d.boot_id, 12);
}

#[test]
fn notification_headers_by_version() {
    let d = device(9);
    let v10 = device_available_request(&d, &notify::Options::default_for(SpecVersion::V10)).to_string();
    assert!(!v10.contains("BOOTID"));
    let v20 = device_available_request(&d, &notify::Options::default_for(SpecVersion::V20)).to_string();
    assert!(v20.contains("\r\nSECURELOCATION.UPNP.ORG: https://10.0.0.5/desc.xml\r\n"));
    assert!(matches!(
        device_update_request(&d, &notify::Options::default_for(SpecVersion::V10)),
        Err(Error::UnsupportedVersion { .. })
    ));
    let update = device_update_request(&d, &notify::Options::default_for(SpecVersion::V11)).unwrap().to_string();
    assert!(update.contains("\r\nBOOTID.UPNP.ORG: 9\r\nNEXTBOOTID.UPNP.ORG: 10\r\n"));
    assert!(update.contains("\r\nNTS: ssdp:update\r\n"));
    let bye = device_unavailable_request(&d, &notify::Options::default_for(SpecVersion::V11)).to_string();
    assert_eq!(
        bye,
        "NOTIFY * HTTP/1.1\r\nHOST: 239.255.255.250:1900\r\nNT: upnp:rootdevice\r\nNTS: ssdp:byebye\r\nUSN: uuid:1234::upnp:rootdevice\r\nBOOTID.UPNP.ORG: 9\r\nCONFIGID.UPNP.ORG: 3\r\n\r\n"
    );
}

fn answer_for(usn: &str, max_age: u64) -> Response {
    let text = answer("", "a/1 UPnP/1.0 b/1", usn).replace("max-age=1800", &format!("max-age={}", max_age));
    convert(&text).unwrap()
}

#[test]
fn e4_cache_refresh_merge() {
    let o = Options::default_for(SpecVersion::V10);
    let mut cache = ResponseCache::new(o, vec![answer_for("A", 100), answer_for("B", 100)], 1000);
    assert_eq!(cache.last_updated(), 1000);
    assert_eq!(cache.entries().len(), 2);
    cache.refresh(vec![answer_for("B", 500), answer_for("C", 100)], 1050);
    let names: Vec<(String, u64)> =
        cache.entries().iter().map(|c| (c.response.service_name.clone(), c.expiration)).collect();
    assert_eq!(names, vec![("A".to_string(), 1100), ("B".to_string(), 1550), ("C".to_string(), 1150)]);
    assert_eq!(cache.entries()[1].response.max_age, 500);
    let live: Vec<String> = cache.responses(1120).iter().map(|r| r.service_name.clone()).collect();
    assert_eq!(live, vec!["B".to_string(), "C".to_string()]);
    cache.refresh(vec![], 1200);
    let left: Vec<String> = cache.entries().iter().map(|c| c.response.service_name.clone()).collect();
    assert_eq!(left, vec!["B".to_string()]);
    assert_eq!(cache.last_updated(), 1200);
}

#[test]
fn cache_keeps_later_expiry() {
    let o = Options::default_for(SpecVersion::V10);
    let cache = ResponseCache::new(o, vec![answer_for("A", 500), answer_for("A", 10)], 0);
    assert_eq!(cache.entries().len(), 1);
    assert_eq!(cache.entries()[0].expiration, 500);
    assert_eq!(cache.responses(0).len(), 1);
}

fn host() -> Vec<NetworkInterface> {
    vec![
        NetworkInterface { name: "lo".to_string(), ips: vec![IpAddress::V4(127, 0, 0, 1)] },
        NetworkInterface {
            name: "eth0".to_string(),
            ips: vec![IpAddress::V6(0xfe80, 0, 0, 0, 0, 0, 0, 1), IpAddress::V4(192, 168, 1, 10)],
        },
        NetworkInterface { name: "eth1".to_string(), ips: vec![IpAddress::V4(10, 0, 0, 2)] },
    ]
}

#[test]
fn e6_interface_resolution() {
    let v4only = vec![NetworkInterface { name: "eth0".to_string(), ips: vec![IpAddress::V4(192, 168, 1, 10)] }];
    assert_eq!(
        ip_address_for_interface(&v4only, &Some("eth0".to_string()), &Some(IP::V4)),
        Some(IpAddress::V4(192, 168, 1, 10))
    );
    assert_eq!(ip_address_for_interface(&v4only, &Some("eth0".to_string()), &Some(IP::V6)), None);
    assert_eq!(ip_address_for_interface(&v4only, &None, &Some(IP::V4)), None);
    assert_eq!(ip_address_for_interface(&v4only, &Some("wlan0".to_string()), &None), None);
    let h = host();
    assert_eq!(
        ip_address_for_interface(&h, &Some("eth0".to_string()), &None),
        Some(IpAddress::V6(0xfe80, 0, 0, 0, 0, 0, 0, 1))
    );
    assert_eq!(ip_addresses_for_interface(&h, "eth0", Some(IP::V4)), vec![IpAddress::V4(192, 168, 1, 10)]);
}

#[test]
fn device_lifecycle() {
    let s = next_state(DeviceState::NotAnnounced, Notification::Available).unwrap();
    assert_eq!(s, DeviceState::Alive);
    assert_eq!(next_state(s, Notification::Update).unwrap(), DeviceState::Alive);
    let d = next_state(s, Notification::Unavailable).unwrap();
    assert_eq!(d, DeviceState::Departed);
    assert!(matches!(next_state(d, Notification::Available), Err(Error::UnsupportedOperation { .. })));
    assert!(next_state(DeviceState::NotAnnounced, Notification::Update).is_err());
}

#[test]
fn server_token_named_by_a_space() {
    let r = convert(&answer("", "a/1  /2 c/3", "u")).unwrap();
    assert_eq!(r.versions.upnp.name, " ");
    assert_eq!(r.versions.upnp.version, "2");
    assert_eq!(r.versions.product.name, "c");
}
