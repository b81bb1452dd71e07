use upnp_rs::description::device::{to_writer, Device, DeviceRoot, Service};
use upnp_rs::description::service::{self, Action, AllowedValue, Argument, Direction, Spcd, StateVariable};
use upnp_rs::description::TypeID;
use upnp_rs::discovery::search::SearchTarget;
use upnp_rs::error::Error;
use upnp_rs::soap::{Body, Envelope};
use upnp_rs::SpecVersion;

const EX_DEVICE: &str = "<?xml version=\"1.0\"?><root xmlns=\"urn:schemas-upnp-org:device-1-0\"><specVersion><major>1</major><minor>0</minor></specVersion><URLBase>http://10.59.104.28:49152/</URLBase><device><deviceType>urn:schemas-upnp-org:device:Basic:1</deviceType><friendlyName>AXIS P3301 - 00408CA45086</friendlyName><manufacturer>AXIS</manufacturer><manufacturerURL>http://www.axis.com/</manufacturerURL><modelDescription>AXIS P3301 Network Fixed Dome Camera</modelDescription><modelName>AXIS P3301</modelName><modelNumber>P3301</modelNumber><modelURL>http://www.axis.com/</modelURL><serialNumber>00408CA45086</serialNumber><UDN>uuid:Upnp-BasicDevice-1_0-00408CA45086</UDN><serviceList><service xmlns=\"urn:schemas-upnp-org:service-1-0\"><serviceType>urn:axis-com:service:BasicService:1</serviceType><serviceId>urn:axis-com:serviceId:BasicServiceId</serviceId><SCPDURL>/scpd_basic.xml</SCPDURL><controlURL>/upnp/control/BasicServiceId</controlURL><eventSubURL>/upnp/event/BasicServiceId</eventSubURL></service></serviceList><presentationURL>http://10.59.104.28:80/</presentationURL></device></root>";

fn axis_device() -> DeviceRoot {
    DeviceRoot {
        spec_version: SpecVersion::V10,
        url_base: "http://10.59.104.28:49152/".to_string(),
        device: Device {
            device_type: TypeID::new_device("Basic".to_string(), "1".to_string()),
            friendly_name: "AXIS P3301 - 00408CA45086".to_string(),
            manufacturer: "AXIS".to_string(),
            manufacturer_url: Some("http://www.axis.com/".to_string()),
            model_description: Some("AXIS P3301 Network Fixed Dome Camera".to_string()),
            model_name: "AXIS P3301".to_string(),
            model_number: Some("P3301".to_string()),
            model_url: Some("http://www.axis.com/".to_string()),
            serial_number: Some("00408CA45086".to_string()),
            unique_device_name: "uuid:Upnp-BasicDevice-1_0-00408CA45086".to_string(),
            upc: None,
            icon_list: vec![],
            service_list: vec![Service {
                service_type: TypeID::new_service_with_domain(
                    "axis-com".to_string(),
                    "BasicService".to_string(),
                    "1".to_string(),
                ),
                service_id: "urn:axis-com:serviceId:BasicServiceId".to_string(),
                scpd_url: "/scpd_basic.xml".to_string(),
                control_url: "/upnp/control/BasicServiceId".to_string(),
                event_sub_url: "/upnp/event/BasicServiceId".to_string(),
            }],
            device_list: vec![],
            presentation_url: Some("http://10.59.104.28:80/".to_string()),
        },
    }
}

#[test]
fn mod_test_xml_serialize() {
    let device = axis_device();
    println!("\n{:#?}\n", device);
    let bytes = to_writer(&device).unwrap();
    println!("{}", String::from_utf8(bytes).unwrap());
    println!("\n\n");
}

#[test]
fn device_description_document() {
    let bytes = to_writer(&axis_device()).unwrap();
    let xml = String::from_utf8(bytes).unwrap();
    assert!(xml.starts_with("<?xml version=\"1.0\"?>"));
    assert!(xml.contains("<root xmlns=\"urn:schemas-upnp-org:device-1-0\">"));
    assert!(xml.contains("<specVersion><major>1</major><minor>0</minor></specVersion>"));
    assert!(xml.contains("<deviceType>urn:schemas-upnp-org:device:Basic:1</deviceType>"));
    assert!(xml.contains("<serviceType>urn:axis-com:service:BasicService:1</serviceType>"));
    assert!(xml.contains("<URLBase>http://10.59.104.28:49152/</URLBase>"));
    assert!(!xml.contains("<iconList>"));
    assert!(xml.ends_with("</device></root>"));
}

#[test]
fn description_text_is_escaped() {
    let mut root = axis_device();
    root.device.friendly_name = "A & B <C>".to_string();
    let xml = String::from_utf8(to_writer(&root).unwrap()).unwrap();
    assert!(xml.contains("<friendlyName>A &amp; B &lt;C&gt;</friendlyName>"));
}

#[test]
fn service_description_document() {
    let spcd = Spcd {
        spec_version: SpecVersion::V11,
        action_list: vec![Action {
            name: "GetValue".to_string(),
            argument_list: vec![Argument {
                name: "Value".to_string(),
                direction: Direction::Out,
                return_value: true,
                related_state_variable: "Value".to_string(),
            }],
        }],
        service_state_table: vec![StateVariable {
            send_events: false,
            name: "Value".to_string(),
            data_type: "ui2".to_string(),
            default_value: Some("0".to_string()),
            allowed_values: Some(AllowedValue::Range {
                minimum: "0".to_string(),
                maximum: "10".to_string(),
                step: None,
            }),
        }],
    };
    let xml = String::from_utf8(service::to_writer(&spcd).unwrap()).unwrap();
    assert!(xml.contains("<scpd xmlns=\"urn:schemas-upnp-org:service-1-0\">"));
    assert!(xml.contains("<specVersion><major>1</major><minor>1</minor></specVersion>"));
    assert!(xml.contains("<direction>out</direction><retval></retval>"));
    assert!(xml.contains("<stateVariable sendEvents=\"no\">"));
    assert!(xml.contains("<allowedValueRange><minimum>0</minimum><maximum>10</maximum></allowedValueRange>"));
    assert!(xml.ends_with("</serviceStateTable></scpd>"));
}

#[test]
fn type_ids() {
    let t = TypeID::new_device("Basic".to_string(), "1".to_string());
    assert_eq!(t.to_string(), "urn:schemas-upnp-org:device:Basic:1");
    assert_eq!(t.default_id(), "urn:upnp-org:deviceId:Basic");
    let s = TypeID::new_service_with_domain("axis-com".to_string(), "Basic".to_string(), "2".to_string());
    assert_eq!(s.to_string(), "urn:axis-com:service:Basic:2");
    assert_eq!(s.default_id(), "urn:upnp-org:serviceId:Basic");
}

#[test]
fn type_id_from_search_target() {
    let t = TypeID::device_from(SearchTarget::DomainDeviceType("axis-com".to_string(), "Camera:3".to_string())).unwrap();
    assert_eq!(t, TypeID::new_device_with_domain("axis-com".to_string(), "Camera".to_string(), "3".to_string()));
    let s = TypeID::service_from(SearchTarget::ServiceType("Basic:1".to_string())).unwrap();
    assert_eq!(s, TypeID::new_service("Basic".to_string(), "1".to_string()));
    match TypeID::device_from(SearchTarget::RootDevice) {
        Err(Error::UnsupportedOperation { operation }) => assert_eq!(operation, "upnp:rootdevice"),
        other => panic!("unexpected {:?}", other),
    }
    assert!(matches!(TypeID::service_from(SearchTarget::DeviceType("Basic:1".to_string())), Err(Error::UnsupportedOperation { .. })));
    assert!(matches!(TypeID::device_from(SearchTarget::DeviceType("Basic".to_string())), Err(Error::MessageFormat(_))));
}

#[test]
fn soap_envelopes() {
    let action = upnp_rs::soap::Action::new(TypeID::new_service("Switch".to_string(), "1".to_string()), "SetTarget".to_string());
    assert_eq!(action.to_string(), "urn:schemas-upnp-org:service:Switch:1#SetTarget");
    let other = action.copy_to("GetTarget".to_string());
    assert_eq!(other.to_string(), "urn:schemas-upnp-org:service:Switch:1#GetTarget");
    let env = Envelope::new(action);
    assert_eq!(env.schema, "http://schemas.xmlsoap.org/soap/envelope/");
    assert!(matches!(env.body, Body::Action { .. }));
}

#[test]
fn device_test_xml_serialize() {
    let device = axis_device();
    println!("\n{:#?}\n", device);
    let written = to_writer(&device).unwrap();
    let xml = std::str::from_utf8(&written).unwrap();
    println!("{}\n\n", xml);
    assert_eq!(xml, EX_DEVICE);
}

#[test]
fn embedded_devices_are_written() {
    let mut root = axis_device();
    let mut inner = axis_device().device;
    inner.friendly_name = "inner".to_string();
    inner.service_list = vec![];
    root.device.device_list = vec![inner];
    let xml = String::from_utf8(to_writer(&root).unwrap()).unwrap();
    assert!(xml.contains("</serviceList><deviceList><device><deviceType>"));
    assert!(xml.contains("<friendlyName>inner</friendlyName>"));
    assert!(xml.ends_with("</device></deviceList><presentationURL>http://10.59.104.28:80/</presentationURL></device></root>"));
}
