use upnp_rs::cli::{parse_version, CLSearchTarget, CommandLineError};
use upnp_rs::discovery::search::SearchTarget;
use upnp_rs::error::MessageFormatError;
use upnp_rs::SpecVersion;

fn round_trip(t: SearchTarget) {
    let text = t.to_string();
    assert_eq!(SearchTarget::from_str(&text).unwrap(), t);
}

#[test]
fn search_target_render() {
    assert_eq!(SearchTarget::All.to_string(), "ssdp::all");
    assert_eq!(SearchTarget::RootDevice.to_string(), "upnp:rootdevice");
    assert_eq!(SearchTarget::Device("abc-123".to_string()).to_string(), "uuid:abc-123");
    assert_eq!(SearchTarget::DeviceType("Basic:1".to_string()).to_string(), "urn:schemas-upnp-org:device:Basic:1");
    assert_eq!(SearchTarget::ServiceType("Switch:1".to_string()).to_string(), "urn:schemas-upnp-org:service:Switch:1");
    assert_eq!(
        SearchTarget::DomainDeviceType("axis-com".to_string(), "Cam:1".to_string()).to_string(),
        "urn:axis-com:device:Cam:1"
    );
}

#[test]
fn search_target_parse() {
    assert_eq!(SearchTarget::from_str("ssdp::all").unwrap(), SearchTarget::All);
    assert_eq!(SearchTarget::from_str("upnp:rootdevice").unwrap(), SearchTarget::RootDevice);
    assert_eq!(SearchTarget::from_str("uuid:abc-123").unwrap(), SearchTarget::Device("abc-123".to_string()));
    assert_eq!(
        SearchTarget::from_str("urn:schemas-upnp-org:device:Basic:1").unwrap(),
        SearchTarget::DeviceType("Basic:1".to_string())
    );
    assert_eq!(
        SearchTarget::from_str("urn:axis-com:service:BasicService:1").unwrap(),
        SearchTarget::DomainServiceType("axis-com".to_string(), "BasicService:1".to_string())
    );
}

#[test]
fn search_target_round_trip() {
    round_trip(SearchTarget::All);
    round_trip(SearchTarget::RootDevice);
    round_trip(SearchTarget::Device("1234-abcd".to_string()));
    round_trip(SearchTarget::DeviceType("Basic:1".to_string()));
    round_trip(SearchTarget::ServiceType("Switch:2".to_string()));
    round_trip(SearchTarget::DomainDeviceType("axis-com".to_string(), "Cam:1".to_string()));
    round_trip(SearchTarget::DomainServiceType("axis-com".to_string(), "Basic:1".to_string()));
}

#[test]
fn search_target_parse_errors() {
    match SearchTarget::from_str("bogus") {
        Err(MessageFormatError::InvalidValueForType { for_type, value }) => {
            assert_eq!(for_type, "SearchTarget");
            assert_eq!(value, "bogus");
        }
        other => panic!("unexpected {:?}", other),
    }
    match SearchTarget::from_str("urn:axis-com:thing:X") {
        Err(MessageFormatError::InvalidValueForType { for_type, .. }) => assert_eq!(for_type, "URN"),
        other => panic!("unexpected {:?}", other),
    }
    assert!(SearchTarget::from_str("urn:axis-com:device:").is_err());
    assert!(SearchTarget::from_str("ssdp:all").is_err());
}

#[test]
fn command_line_targets() {
    assert_eq!(CLSearchTarget::from_str("").unwrap(), CLSearchTarget::RootDevice);
    assert_eq!(CLSearchTarget::from_str("all").unwrap(), CLSearchTarget::All);
    assert_eq!(CLSearchTarget::from_str("device:xyz").unwrap(), CLSearchTarget::Device("xyz".to_string()));
    assert_eq!(CLSearchTarget::from_str("service-type:Switch:1").unwrap(), CLSearchTarget::ServiceType("Switch:1".to_string()));
    let err = CLSearchTarget::from_str("nothing").unwrap_err();
    assert_eq!(err, CommandLineError::InvalidParameterValue("search_target".to_string(), "nothing".to_string()));
    assert_eq!(err.to_string(), "Value 'nothing' invalid for parameter search_target");
    let t = CLSearchTarget::DeviceType("Cam:1".to_string()).to_search_target(Some("axis-com".to_string()));
    assert_eq!(t, SearchTarget::DomainDeviceType("axis-com".to_string(), "Cam:1".to_string()));
}

#[test]
fn version_names() {
    assert_eq!(parse_version(Some("1.1".to_string())), SpecVersion::V11);
    assert_eq!(parse_version(Some("2.0".to_string())), SpecVersion::V20);
    assert_eq!(parse_version(Some("3.0".to_string())), SpecVersion::V10);
    assert_eq!(parse_version(None), SpecVersion::V10);
    assert_eq!(SpecVersion::V20.to_string(), "2.0");
    assert_eq!(SpecVersion::from_str("1.1").unwrap(), SpecVersion::V11);
    assert!(SpecVersion::V20.at_least(SpecVersion::V11));
    assert!(!SpecVersion::V10.at_least(SpecVersion::V11));
    assert!(matches!(SpecVersion::from_str("9.9"), Err(MessageFormatError::InvalidValue { .. })));
}
