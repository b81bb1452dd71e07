//! Notifications: the `NOTIFY` messages by which a device announces itself (`ssdp:alive`),
//! announces a new boot (`ssdp:update`) and withdraws (`ssdp:byebye`), and its boot counter.

use vstd::prelude::*;
use crate::discovery::search::{render_target, SearchTarget};
use crate::discovery::{token, user_agent, user_agent_string, ProductVersion, DEFAULT_PRODUCT_NAME, DEFAULT_PRODUCT_VERSION};
use crate::error::Error;
use crate::headers::{insert, HeaderSeq};
use crate::httpu::{self, Request, RequestBuilder};
use crate::syntax::{
    HTTP_HEADER_BOOTID, HTTP_HEADER_CACHE_CONTROL, HTTP_HEADER_CONFIGID, HTTP_HEADER_HOST,
    HTTP_HEADER_LOCATION, HTTP_HEADER_NEXT_BOOTID, HTTP_HEADER_NT, HTTP_HEADER_NTS,
    HTTP_HEADER_SEARCH_PORT, HTTP_HEADER_SECURE_LOCATION, HTTP_HEADER_SERVER, HTTP_HEADER_USN,
    HTTP_METHOD_NOTIFY, MULTICAST_ADDRESS, NTS_ALIVE, NTS_BYE, NTS_UPDATE,
};
use crate::text::{self, decimal};
use crate::SpecVersion;

verus! {

/// A device, or one of its services, as its notifications describe it.
#[derive(Debug)]
pub struct Device {
    pub notification_type: SearchTarget,
    pub service_name: String,
    pub location: String,
    /// Counts the device's boots; each notification sent moves it on by one.
    pub boot_id: u32,
    pub config_id: u64,
    pub search_port: Option<u16>,
    pub secure_location: Option<String>,
}

/// The options of a notification.
#[derive(Debug)]
pub struct Options {
    pub spec_version: SpecVersion,
    pub network_interface: Option<String>,
    /// Seconds for which the advertisement is valid. Default: 1800.
    pub max_age: u16,
    /// The IP packet TTL: 4 for 1.0, else 2.
    pub packet_ttl: u32,
    pub product_and_version: Option<ProductVersion>,
    /// The platform token of the `SERVER` header, as a host probe reports it.
    pub platform: ProductVersion,
}

impl Options {
    /// The defaults for a specification version.
    pub fn default_for(spec_version: SpecVersion) -> (r: Self)
        ensures
            r.spec_version == spec_version,
            r.network_interface is None,
            r.max_age == 1800,
            r.packet_ttl == if spec_version == SpecVersion::V10 { 4u32 } else { 2u32 },
            r.product_and_version is None,
    {
        Options {
            spec_version,
            network_interface: None,
            max_age: 1800,
            packet_ttl: match spec_version {
                SpecVersion::V10 => 4,
                _ => 2,
            },
            product_and_version: None,
            platform: ProductVersion::for_platform(
                crate::discovery::search::DEFAULT_PLATFORM_NAME,
                crate::discovery::search::DEFAULT_PLATFORM_VERSION,
            ),
        }
    }

    /// The socket options of a notification: its interface and TTL.
    pub fn multicast_options(&self) -> (r: httpu::Options)
        ensures
            r.network_interface == self.network_interface,
            r.network_version is None,
            r.packet_ttl == self.packet_ttl,
            r.recv_timeout == crate::syntax::DEFAULT_RECV_TIMEOUT,
            r.local_port == 0,
    {
        let mut o = httpu::Options::new();
        o.network_interface = match &self.network_interface {
            Some(s) => Some(s.clone()),
            None => None,
        };
        o.packet_ttl = self.packet_ttl;
        o
    }
}

/// `h` with `k` set to `v` when there is a value.
pub open spec fn insert_some(h: HeaderSeq, k: Seq<char>, v: Option<Seq<char>>) -> HeaderSeq {
    match v {
        Some(v) => insert(h, k, v),
        None => h,
    }
}

pub open spec fn port_text(p: Option<u16>) -> Option<Seq<char>> {
    match p {
        Some(p) => Some(decimal(p as nat)),
        None => None,
    }
}

pub open spec fn string_opt(s: Option<String>) -> Option<Seq<char>> {
    match s {
        Some(s) => Some(s@),
        None => None,
    }
}

/// The `SERVER` value of a notification.
pub open spec fn server_of(o: Options) -> Seq<char> {
    user_agent(
        o.spec_version,
        match o.product_and_version {
            Some(p) => p.text(),
            None => token(DEFAULT_PRODUCT_NAME@, DEFAULT_PRODUCT_VERSION@),
        },
        o.platform.text(),
    )
}

/// The headers of `ssdp:alive`: `HOST`, `CACHE-CONTROL`, `LOCATION`, `NT`, `NTS`, `SERVER`,
/// `USN`; from 1.1 the boot and configuration ids and the search port if set; in 2.0 the
/// secure location if set.
pub open spec fn alive_headers(d: Device, o: Options) -> HeaderSeq {
    let h0 = insert(
        insert(
            insert(
                insert(
                    insert(
                        insert(
                            insert(Seq::empty(), HTTP_HEADER_HOST@, MULTICAST_ADDRESS@),
                            HTTP_HEADER_CACHE_CONTROL@,
                            "max-age="@ + decimal(o.max_age as nat),
                        ),
                        HTTP_HEADER_LOCATION@,
                        d.location@,
                    ),
                    HTTP_HEADER_NT@,
                    render_target(d.notification_type@),
                ),
                HTTP_HEADER_NTS@,
                NTS_ALIVE@,
            ),
            HTTP_HEADER_SERVER@,
            server_of(o),
        ),
        HTTP_HEADER_USN@,
        d.service_name@,
    );
    let h1 = if o.spec_version.spec_at_least(SpecVersion::V11) {
        insert_some(
            insert(
                insert(h0, HTTP_HEADER_BOOTID@, decimal(d.boot_id as nat)),
                HTTP_HEADER_CONFIGID@,
                decimal(d.config_id as nat),
            ),
            HTTP_HEADER_SEARCH_PORT@,
            port_text(d.search_port),
        )
    } else {
        h0
    };
    if o.spec_version.spec_at_least(SpecVersion::V20) {
        insert_some(h1, HTTP_HEADER_SECURE_LOCATION@, string_opt(d.secure_location))
    } else {
        h1
    }
}

/// The headers of `ssdp:update`: `HOST`, `LOCATION`, `NT`, `NTS`, `USN`, the boot id, the next
/// boot id, the configuration id, the search port if set, and in 2.0 the secure location if
/// set.
pub open spec fn update_headers(d: Device, o: Options) -> HeaderSeq {
    let h0 = insert(
        insert(
            insert(
                insert(
                    insert(
                        insert(
                            insert(
                                insert(Seq::empty(), HTTP_HEADER_HOST@, MULTICAST_ADDRESS@),
                                HTTP_HEADER_LOCATION@,
                                d.location@,
                            ),
                            HTTP_HEADER_NT@,
                            render_target(d.notification_type@),
                        ),
                        HTTP_HEADER_NTS@,
                        NTS_UPDATE@,
                    ),
                    HTTP_HEADER_USN@,
                    d.service_name@,
                ),
                HTTP_HEADER_BOOTID@,
                decimal(d.boot_id as nat),
            ),
            HTTP_HEADER_NEXT_BOOTID@,
            decimal(d.boot_id as nat + 1),
        ),
        HTTP_HEADER_CONFIGID@,
        decimal(d.config_id as nat),
    );
    let h1 = insert_some(h0, HTTP_HEADER_SEARCH_PORT@, port_text(d.search_port));
    if o.spec_version.spec_at_least(SpecVersion::V20) {
        insert_some(h1, HTTP_HEADER_SECURE_LOCATION@, string_opt(d.secure_location))
    } else {
        h1
    }
}

/// The headers of `ssdp:byebye`: `HOST`, `NT`, `NTS`, `USN`; from 1.1 the boot and
/// configuration ids.
pub open spec fn byebye_headers(d: Device, o: Options) -> HeaderSeq {
    let h0 = insert(
        insert(
            insert(
                insert(Seq::empty(), HTTP_HEADER_HOST@, MULTICAST_ADDRESS@),
                HTTP_HEADER_NT@,
                render_target(d.notification_type@),
            ),
            HTTP_HEADER_NTS@,
            NTS_BYE@,
        ),
        HTTP_HEADER_USN@,
        d.service_name@,
    );
    if o.spec_version.spec_at_least(SpecVersion::V11) {
        insert(
            insert(h0, HTTP_HEADER_BOOTID@, decimal(d.boot_id as nat)),
            HTTP_HEADER_CONFIGID@,
            decimal(d.config_id as nat),
        )
    } else {
        h0
    }
}

pub open spec fn is_notify(q: Request, h: HeaderSeq) -> bool {
    q.message@ == HTTP_METHOD_NOTIFY@ && q.resource is None && q.headers.wf() && q.headers@ == h
}

fn add_common(builder: &mut RequestBuilder, device: &Device)
    requires
        old(builder).wf(),
    ensures
        final(builder).wf(),
        final(builder).request.message == old(builder).request.message,
        final(builder).request.resource == old(builder).request.resource,
        final(builder).request.headers@ == insert(
            old(builder).request.headers@,
            HTTP_HEADER_NT@,
            render_target(device.notification_type@),
        ),
{
    let nt = device.notification_type.to_string();
    builder.add_header(HTTP_HEADER_NT, nt.as_str());
}

/// The `ssdp:alive` message announcing the device.
pub fn device_available_request(device: &Device, options: &Options) -> (r: Request)
    ensures
        is_notify(r, alive_headers(*device, *options)),
{
    let mut b = RequestBuilder::new(HTTP_METHOD_NOTIFY);
    b.add_header(HTTP_HEADER_HOST, MULTICAST_ADDRESS);
    let mut cc: Vec<char> = Vec::new();
    text::push_str(&mut cc, "max-age=");
    text::push_decimal(options.max_age as u64, &mut cc);
    let cc = text::string_from_chars(cc.as_slice());
    b.add_header(HTTP_HEADER_CACHE_CONTROL, cc.as_str());
    b.add_header(HTTP_HEADER_LOCATION, device.location.as_str());
    add_common(&mut b, device);
    b.add_header(HTTP_HEADER_NTS, NTS_ALIVE);
    let server = user_agent_string(options.spec_version, &options.product_and_version, &options.platform);
    b.add_header(HTTP_HEADER_SERVER, server.as_str());
    b.add_header(HTTP_HEADER_USN, device.service_name.as_str());
    if options.spec_version.at_least(SpecVersion::V11) {
        let boot = text::decimal_string(device.boot_id as u64);
        b.add_header(HTTP_HEADER_BOOTID, boot.as_str());
        let config = text::decimal_string(device.config_id);
        b.add_header(HTTP_HEADER_CONFIGID, config.as_str());
        if let Some(port) = device.search_port {
            let p = text::decimal_string(port as u64);
            b.add_header(HTTP_HEADER_SEARCH_PORT, p.as_str());
        }
    }
    if options.spec_version.at_least(SpecVersion::V20) {
        if let Some(secure) = &device.secure_location {
            b.add_header(HTTP_HEADER_SECURE_LOCATION, secure.as_str());
        }
    }
    b.build()
}

/// The `ssdp:update` message announcing the device's next boot id; UPnP 1.0 has none.
pub fn device_update_request(device: &Device, options: &Options) -> (r: Result<Request, Error>)
    ensures
        r is Ok <==> options.spec_version != SpecVersion::V10,
        r matches Ok(q) ==> is_notify(q, update_headers(*device, *options)),
        r matches Err(e) ==> e == (Error::UnsupportedVersion { version: options.spec_version }),
{
    if !options.spec_version.at_least(SpecVersion::V11) {
        return Err(crate::error::unsupported_version(options.spec_version));
    }
    let mut b = RequestBuilder::new(HTTP_METHOD_NOTIFY);
    b.add_header(HTTP_HEADER_HOST, MULTICAST_ADDRESS);
    b.add_header(HTTP_HEADER_LOCATION, device.location.as_str());
    add_common(&mut b, device);
    b.add_header(HTTP_HEADER_NTS, NTS_UPDATE);
    b.add_header(HTTP_HEADER_USN, device.service_name.as_str());
    let boot = text::decimal_string(device.boot_id as u64);
    b.add_header(HTTP_HEADER_BOOTID, boot.as_str());
    let next = text::decimal_string(device.boot_id as u64 + 1);
    b.add_header(HTTP_HEADER_NEXT_BOOTID, next.as_str());
    let config = text::decimal_string(device.config_id);
    b.add_header(HTTP_HEADER_CONFIGID, config.as_str());
    if let Some(port) = device.search_port {
        let p = text::decimal_string(port as u64);
        b.add_header(HTTP_HEADER_SEARCH_PORT, p.as_str());
    }
    if options.spec_version.at_least(SpecVersion::V20) {
        if let Some(secure) = &device.secure_location {
            b.add_header(HTTP_HEADER_SECURE_LOCATION, secure.as_str());
        }
    }
    Ok(b.build())
}

/// The `ssdp:byebye` message withdrawing the device.
pub fn device_unavailable_request(device: &Device, options: &Options) -> (r: Request)
    ensures
        is_notify(r, byebye_headers(*device, *options)),
{
    let mut b = RequestBuilder::new(HTTP_METHOD_NOTIFY);
    b.add_header(HTTP_HEADER_HOST, MULTICAST_ADDRESS);
    add_common(&mut b, device);
    b.add_header(HTTP_HEADER_NTS, NTS_BYE);
    b.add_header(HTTP_HEADER_USN, device.service_name.as_str());
    if options.spec_version.at_least(SpecVersion::V11) {
        let boot = text::decimal_string(device.boot_id as u64);
        b.add_header(HTTP_HEADER_BOOTID, boot.as_str());
        let config = text::decimal_string(device.config_id);
        b.add_header(HTTP_HEADER_CONFIGID, config.as_str());
    }
    b.build()
}

impl Device {
    /// Records that a notification was sent: the boot id moves on by one.
    pub fn record_sent(&mut self)
        requires
            old(self).boot_id < u32::MAX,
        ensures
            final(self).boot_id == old(self).boot_id + 1,
            final(self).notification_type == old(self).notification_type,
            final(self).service_name == old(self).service_name,
            final(self).location == old(self).location,
            final(self).config_id == old(self).config_id,
            final(self).search_port == old(self).search_port,
            final(self).secure_location == old(self).secure_location,
    {
        self.boot_id = self.boot_id + 1;
    }
}

} // verus!

verus! {

/// Where a device stands in its announcements.
#[derive(Clone, Copy, Debug, PartialEq, Eq, Structural)]
pub enum DeviceState {
    NotAnnounced,
    Alive,
    Departed,
}

/// The kinds of notification.
#[derive(Clone, Copy, Debug, PartialEq, Eq, Structural)]
pub enum Notification {
    Available,
    Update,
    Unavailable,
}

/// The state after a notification, if the notification is allowed: a device becomes alive by
/// announcing itself, stays alive through updates and repeated announcements, and departs by
/// withdrawing; a departed device sends nothing more.
pub open spec fn next_state_of(state: DeviceState, n: Notification) -> Option<DeviceState> {
    match (state, n) {
        (DeviceState::NotAnnounced, Notification::Available) => Some(DeviceState::Alive),
        (DeviceState::Alive, Notification::Available) => Some(DeviceState::Alive),
        (DeviceState::Alive, Notification::Update) => Some(DeviceState::Alive),
        (DeviceState::Alive, Notification::Unavailable) => Some(DeviceState::Departed),
        _ => None,
    }
}

/// The state after a notification; a notification that the state does not allow is an
/// unsupported operation.
pub fn next_state(state: DeviceState, n: Notification) -> (r: Result<DeviceState, Error>)
    ensures
        r is Ok <==> next_state_of(state, n) is Some,
        r matches Ok(s) ==> next_state_of(state, n) == Some(s),
        r matches Err(e) ==> e is UnsupportedOperation,
{
    match (state, n) {
        (DeviceState::NotAnnounced, Notification::Available) => Ok(DeviceState::Alive),
        (DeviceState::Alive, Notification::Available) => Ok(DeviceState::Alive),
        (DeviceState::Alive, Notification::Update) => Ok(DeviceState::Alive),
        (DeviceState::Alive, Notification::Unavailable) => Ok(DeviceState::Departed),
        (_, Notification::Available) => Err(crate::error::unsupported_operation("ssdp:alive")),
        (_, Notification::Update) => Err(crate::error::unsupported_operation("ssdp:update")),
        (_, Notification::Unavailable) => Err(crate::error::unsupported_operation("ssdp:byebye")),
    }
}

/// A departed device stays departed: no notification leads anywhere from there.
pub proof fn lemma_departed_is_final(n: Notification)
    ensures
        next_state_of(DeviceState::Departed, n) is None,
{
}

} // verus!
