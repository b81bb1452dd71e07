//! Device descriptions: the document that a device's `LOCATION` points to.

use vstd::prelude::*;
use crate::description::service::XML_NS_SERVICE;
use crate::description::{
    optional_text_events, spec_version_events, write_optional_text, write_spec_version, TypeID,
};
use crate::error::Error;
use crate::text::{self, decimal};
use crate::xml::{text_element_events, xmlns_name, XmlEvent, XmlWriter};
use crate::SpecVersion;

verus! {

/// The namespace of device descriptions.
pub const XML_NS_DEVICE: &'static str = "urn:schemas-upnp-org:device-1-0";

#[derive(Clone, Debug)]
pub struct Icon {
    pub mime_type: String,
    pub width: u16,
    pub height: u16,
    pub depth: u16,
    pub url: String,
}

#[derive(Clone, Debug)]
pub struct Service {
    pub service_type: TypeID,
    pub service_id: String,
    pub scpd_url: String,
    pub control_url: String,
    pub event_sub_url: String,
}

#[derive(Debug)]
pub struct Device {
    pub device_type: TypeID,
    pub friendly_name: String,
    pub manufacturer: String,
    pub manufacturer_url: Option<String>,
    pub model_description: Option<String>,
    pub model_name: String,
    pub model_number: Option<String>,
    pub model_url: Option<String>,
    pub serial_number: Option<String>,
    pub unique_device_name: String,
    pub upc: Option<String>,
    pub icon_list: Vec<Icon>,
    pub service_list: Vec<Service>,
    pub device_list: Vec<Device>,
    pub presentation_url: Option<String>,
}

#[derive(Debug)]
pub struct DeviceRoot {
    pub spec_version: SpecVersion,
    pub url_base: String,
    pub device: Device,
}

pub open spec fn icon_events(i: Icon) -> Seq<XmlEvent> {
    seq![XmlEvent::Start("icon"@, Seq::empty())] + text_element_events("mimetype"@, i.mime_type@)
        + text_element_events("width"@, decimal(i.width as nat)) + text_element_events(
        "height"@,
        decimal(i.height as nat),
    ) + text_element_events("depth"@, decimal(i.depth as nat)) + text_element_events(
        "url"@,
        i.url@,
    ) + seq![XmlEvent::End("icon"@)]
}

pub open spec fn service_events(s: Service) -> Seq<XmlEvent> {
    seq![XmlEvent::Start("service"@, seq![(xmlns_name(None), XML_NS_SERVICE@)])] + text_element_events(
        "serviceType"@,
        s.service_type.text(),
    ) + text_element_events("serviceId"@, s.service_id@) + text_element_events(
        "SCPDURL"@,
        s.scpd_url@,
    ) + text_element_events("controlURL"@, s.control_url@) + text_element_events(
        "eventSubURL"@,
        s.event_sub_url@,
    ) + seq![XmlEvent::End("service"@)]
}

pub open spec fn icons_events(is: Seq<Icon>) -> Seq<XmlEvent>
    decreases is.len(),
{
    if is.len() == 0 {
        Seq::empty()
    } else {
        icons_events(is.drop_last()) + icon_events(is.last())
    }
}

pub open spec fn services_events(ss: Seq<Service>) -> Seq<XmlEvent>
    decreases ss.len(),
{
    if ss.len() == 0 {
        Seq::empty()
    } else {
        services_events(ss.drop_last()) + service_events(ss.last())
    }
}

/// A list element around the items' events, or nothing when there are no items.
pub open spec fn list_events(name: Seq<char>, count: nat, items: Seq<XmlEvent>) -> Seq<XmlEvent> {
    if count == 0 {
        Seq::empty()
    } else {
        seq![XmlEvent::Start(name, Seq::empty())] + items + seq![XmlEvent::End(name)]
    }
}

/// The events of a device's start tag and first descriptive elements.
pub open spec fn device_info_events(d: Device) -> Seq<XmlEvent> {
    seq![XmlEvent::Start("device"@, Seq::empty())] + text_element_events(
        "deviceType"@,
        d.device_type.text(),
    ) + text_element_events("friendlyName"@, d.friendly_name@) + text_element_events(
        "manufacturer"@,
        d.manufacturer@,
    ) + optional_text_events("manufacturerURL"@, d.manufacturer_url) + optional_text_events(
        "modelDescription"@,
        d.model_description,
    ) + text_element_events("modelName"@, d.model_name@)
}

/// The events of a device's model and identity elements.
pub open spec fn device_model_events(d: Device) -> Seq<XmlEvent> {
    optional_text_events("modelNumber"@, d.model_number) + optional_text_events(
        "modelURL"@,
        d.model_url,
    ) + optional_text_events("serialNumber"@, d.serial_number) + text_element_events(
        "UDN"@,
        d.unique_device_name@,
    ) + optional_text_events("UPC"@, d.upc)
}

/// The events of a device's own elements before its embedded devices.
pub open spec fn device_head_events(d: Device) -> Seq<XmlEvent> {
    device_info_events(d) + device_model_events(d) + list_events(
        "iconList"@,
        d.icon_list@.len(),
        icons_events(d.icon_list@),
    ) + list_events("serviceList"@, d.service_list@.len(), services_events(d.service_list@))
}

/// The events of a device's elements after its embedded devices.
pub open spec fn device_tail_events(d: Device) -> Seq<XmlEvent> {
    optional_text_events("presentationURL"@, d.presentation_url) + seq![XmlEvent::End("device"@)]
}

/// The events of a device: its own elements, its embedded devices within a `deviceList`, and
/// its presentation URL.
pub open spec fn device_events(d: Device) -> Seq<XmlEvent>
    decreases d, d.device_list@.len() + 2,
{
    device_head_events(d) + embedded_list_events(d) + device_tail_events(d)
}

/// The `deviceList` element of a device, or nothing when it embeds no device.
pub open spec fn embedded_list_events(d: Device) -> Seq<XmlEvent>
    decreases d, d.device_list@.len() + 1,
{
    if d.device_list@.len() == 0 {
        Seq::empty()
    } else {
        seq![XmlEvent::Start("deviceList"@, Seq::empty())] + embedded_events(
            d,
            d.device_list@.len() as int,
        ) + seq![XmlEvent::End("deviceList"@)]
    }
}

/// The events of the first `n` embedded devices of `d`.
pub open spec fn embedded_events(d: Device, n: int) -> Seq<XmlEvent>
    decreases d, n,
{
    if n <= 0 || n > d.device_list@.len() {
        Seq::empty()
    } else {
        proof {
            vstd::std_specs::vec::axiom_vec_index_decreases(d.device_list, n - 1);
        }
        embedded_events(d, n - 1) + device_events(d.device_list@[n - 1])
    }
}

pub fn write_icon(w: &mut XmlWriter, icon: &Icon) -> (r: Result<(), Error>)
    ensures
        r is Ok,
        final(w).log() == old(w).log() + icon_events(*icon),
{
    let e = w.start_element("icon")?;
    w.text_element("mimetype", icon.mime_type.as_str())?;
    let width = text::decimal_string(icon.width as u64);
    w.text_element("width", width.as_str())?;
    let height = text::decimal_string(icon.height as u64);
    w.text_element("height", height.as_str())?;
    let depth = text::decimal_string(icon.depth as u64);
    w.text_element("depth", depth.as_str())?;
    w.text_element("url", icon.url.as_str())?;
    let r = e.end(w);
    assert(w.log() =~= old(w).log() + icon_events(*icon));
    r
}

pub fn write_service(w: &mut XmlWriter, service: &Service) -> (r: Result<(), Error>)
    ensures
        r is Ok,
        final(w).log() == old(w).log() + service_events(*service),
{
    let e = w.start_ns_element("service", XML_NS_SERVICE, None)?;
    let t = service.service_type.to_string();
    w.text_element("serviceType", t.as_str())?;
    w.text_element("serviceId", service.service_id.as_str())?;
    w.text_element("SCPDURL", service.scpd_url.as_str())?;
    w.text_element("controlURL", service.control_url.as_str())?;
    w.text_element("eventSubURL", service.event_sub_url.as_str())?;
    let r = e.end(w);
    assert(w.log() =~= old(w).log() + service_events(*service));
    r
}

fn write_icon_list(w: &mut XmlWriter, icons: &Vec<Icon>) -> (r: Result<(), Error>)
    ensures
        r is Ok,
        final(w).log() == old(w).log() + list_events(
            "iconList"@,
            icons@.len(),
            icons_events(icons@),
        ),
{
    if icons.len() == 0 {
        assert(w.log() =~= old(w).log() + list_events("iconList"@, 0, icons_events(icons@)));
        return Ok(());
    }
    let e = w.start_element("iconList")?;
    let ghost start = w.log();
    let mut i: usize = 0;
    while i < icons.len()
        invariant
            i <= icons@.len(),
            w.log() == start + icons_events(icons@.subrange(0, i as int)),
        decreases icons.len() - i,
    {
        write_icon(w, &icons[i])?;
        assert(icons@.subrange(0, i + 1).drop_last() =~= icons@.subrange(0, i as int));
        i = i + 1;
        assert(w.log() =~= start + icons_events(icons@.subrange(0, i as int)));
    }
    assert(icons@.subrange(0, i as int) =~= icons@);
    let r = e.end(w);
    assert(w.log() =~= old(w).log() + list_events(
        "iconList"@,
        icons@.len(),
        icons_events(icons@),
    ));
    r
}

fn write_service_list(w: &mut XmlWriter, services: &Vec<Service>) -> (r: Result<(), Error>)
    ensures
        r is Ok,
        final(w).log() == old(w).log() + list_events(
            "serviceList"@,
            services@.len(),
            services_events(services@),
        ),
{
    if services.len() == 0 {
        assert(w.log() =~= old(w).log() + list_events("serviceList"@, 0, services_events(services@)));
        return Ok(());
    }
    let e = w.start_element("serviceList")?;
    let ghost start = w.log();
    let mut i: usize = 0;
    while i < services.len()
        invariant
            i <= services@.len(),
            w.log() == start + services_events(services@.subrange(0, i as int)),
        decreases services.len() - i,
    {
        write_service(w, &services[i])?;
        assert(services@.subrange(0, i + 1).drop_last() =~= services@.subrange(0, i as int));
        i = i + 1;
        assert(w.log() =~= start + services_events(services@.subrange(0, i as int)));
    }
    assert(services@.subrange(0, i as int) =~= services@);
    let r = e.end(w);
    assert(w.log() =~= old(w).log() + list_events(
        "serviceList"@,
        services@.len(),
        services_events(services@),
    ));
    r
}

fn write_device_info(w: &mut XmlWriter, device: &Device) -> (r: Result<(), Error>)
    ensures
        r is Ok,
        final(w).log() == old(w).log() + device_info_events(*device),
{
    w.start_element("device")?;
    let t = device.device_type.to_string();
    w.text_element("deviceType", t.as_str())?;
    w.text_element("friendlyName", device.friendly_name.as_str())?;
    w.text_element("manufacturer", device.manufacturer.as_str())?;
    write_optional_text(w, "manufacturerURL", &device.manufacturer_url)?;
    write_optional_text(w, "modelDescription", &device.model_description)?;
    w.text_element("modelName", device.model_name.as_str())?;
    assert(w.log() =~= old(w).log() + device_info_events(*device));
    Ok(())
}

fn write_device_model(w: &mut XmlWriter, device: &Device) -> (r: Result<(), Error>)
    ensures
        r is Ok,
        final(w).log() == old(w).log() + device_model_events(*device),
{
    write_optional_text(w, "modelNumber", &device.model_number)?;
    write_optional_text(w, "modelURL", &device.model_url)?;
    write_optional_text(w, "serialNumber", &device.serial_number)?;
    w.text_element("UDN", device.unique_device_name.as_str())?;
    write_optional_text(w, "UPC", &device.upc)?;
    assert(w.log() =~= old(w).log() + device_model_events(*device));
    Ok(())
}

fn write_device_head(w: &mut XmlWriter, device: &Device) -> (r: Result<(), Error>)
    ensures
        r is Ok,
        final(w).log() == old(w).log() + device_head_events(*device),
{
    write_device_info(w, device)?;
    write_device_model(w, device)?;
    write_icon_list(w, &device.icon_list)?;
    write_service_list(w, &device.service_list)?;
    assert(w.log() =~= old(w).log() + device_head_events(*device));
    Ok(())
}

/// Writes a device element; embedded devices stand between the device's own elements and its
/// presentation URL.
pub fn write_device(w: &mut XmlWriter, device: &Device) -> (r: Result<(), Error>)
    ensures
        r is Ok,
        final(w).log() == old(w).log() + device_events(*device),
    decreases device,
{
    write_device_head(w, device)?;
    let ghost head = w.log();
    if device.device_list.len() > 0 {
        w.start_element("deviceList")?;
        let ghost start = w.log();
        let mut i: usize = 0;
        while i < device.device_list.len()
            invariant
                i <= device.device_list@.len(),
                w.log() == start + embedded_events(*device, i as int),
            decreases device.device_list.len() - i,
        {
            let child = &device.device_list[i];
            proof { vstd::std_specs::vec::axiom_vec_index_decreases(device.device_list, i as int); }
            write_device(w, child)?;
            i = i + 1;
            assert(w.log() =~= start + embedded_events(*device, i as int));
        }
        w.end_element("deviceList")?;
    }
    assert(w.log() =~= head + embedded_list_events(*device));
    write_optional_text(w, "presentationURL", &device.presentation_url)?;
    let r = w.end_element("device");
    assert(w.log() =~= old(w).log() + device_events(*device));
    r
}

/// The events of a root device description.
pub open spec fn root_events(root: DeviceRoot) -> Seq<XmlEvent> {
    seq![XmlEvent::Start("root"@, seq![(xmlns_name(None), XML_NS_DEVICE@)])] + spec_version_events(
        root.spec_version,
    ) + text_element_events("URLBase"@, root.url_base@) + device_events(root.device) + seq![
        XmlEvent::End("root"@),
    ]
}

/// Writes the `root` element of a device description.
pub fn write_device_root(w: &mut XmlWriter, root: &DeviceRoot) -> (r: Result<(), Error>)
    ensures
        r is Ok,
        final(w).log() == old(w).log() + root_events(*root),
{
    let e = w.start_ns_element("root", XML_NS_DEVICE, None)?;
    write_spec_version(w, root.spec_version)?;
    w.text_element("URLBase", root.url_base.as_str())?;
    write_device(w, &root.device)?;
    let r = e.end(w);
    assert(w.log() =~= old(w).log() + root_events(*root));
    r
}

/// The bytes of a device description document: the XML declaration and the root element.
pub fn to_writer(root: &DeviceRoot) -> (r: Result<Vec<u8>, Error>)
    ensures
        r is Ok,
{
    let mut w = XmlWriter::new();
    w.start()?;
    write_device_root(&mut w, root)?;
    Ok(w.into_bytes())
}

} // verus!
