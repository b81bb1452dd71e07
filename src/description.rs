//! Device and service descriptions: type identifiers, the documents' data, and their writers.

use vstd::prelude::*;
use crate::discovery::search::{render_target, SearchTarget, TargetView};
use crate::error::{invalid_for_type, Error};
use crate::text;
use crate::xml::{text_element_events, XmlEvent, XmlWriter};
use crate::{SpecVersion, UPNP_DOMAIN};

pub mod device;
pub mod service;

verus! {

/// The type of a device or a service: a domain, a name and a version.
#[derive(Clone, Debug, PartialEq, Eq)]
pub enum TypeID {
    Device { domain: String, name: String, version: String },
    Service { domain: String, name: String, version: String },
}

impl TypeID {
    pub open spec fn is_device(&self) -> bool {
        self is Device
    }

    pub open spec fn parts(&self) -> (Seq<char>, Seq<char>, Seq<char>) {
        match self {
            TypeID::Device { domain, name, version } => (domain@, name@, version@),
            TypeID::Service { domain, name, version } => (domain@, name@, version@),
        }
    }

    /// `urn:{domain}:device:{name}:{version}` or `urn:{domain}:service:{name}:{version}`.
    pub open spec fn text(&self) -> Seq<char> {
        let (d, n, v) = self.parts();
        "urn:"@ + d + if self.is_device() {
            ":device:"@
        } else {
            ":service:"@
        } + n + seq![':'] + v
    }

    pub fn new_device(name: String, version: String) -> (r: Self)
        ensures
            r.is_device(),
            r.parts() == (UPNP_DOMAIN@, name@, version@),
    {
        TypeID::Device { domain: UPNP_DOMAIN.to_string(), name, version }
    }

    pub fn new_device_with_domain(domain: String, name: String, version: String) -> (r: Self)
        ensures
            r.is_device(),
            r.parts() == (domain@, name@, version@),
    {
        TypeID::Device { domain, name, version }
    }

    pub fn new_service(name: String, version: String) -> (r: Self)
        ensures
            !r.is_device(),
            r.parts() == (UPNP_DOMAIN@, name@, version@),
    {
        TypeID::Service { domain: UPNP_DOMAIN.to_string(), name, version }
    }

    pub fn new_service_with_domain(domain: String, name: String, version: String) -> (r: Self)
        ensures
            !r.is_device(),
            r.parts() == (domain@, name@, version@),
    {
        TypeID::Service { domain, name, version }
    }

    /// The type of a device search target (standard or domain-qualified); any other target is
    /// an unsupported operation.
    pub fn device_from(st: SearchTarget) -> (r: Result<Self, Error>)
        ensures
            r matches Ok(t) ==> t.is_device() && match st@ {
                TargetView::DeviceType(s) => split_type(s) matches Some((n, v)) && t.parts() == (
                    UPNP_DOMAIN@,
                    n,
                    v,
                ),
                TargetView::DomainDeviceType(dom, s) => split_type(s) matches Some((n, v))
                    && t.parts() == (dom, n, v),
                _ => false,
            },
            r is Ok <==> match st@ {
                TargetView::DeviceType(s) => split_type(s) is Some,
                TargetView::DomainDeviceType(_, s) => split_type(s) is Some,
                _ => false,
            },
            r matches Err(e) ==> device_type_error(e, st@),
    {
        let text = st.to_string();
        match st {
            SearchTarget::DeviceType(type_text) => {
                let (name, version) = split_type_and_version(&type_text)?;
                Ok(TypeID::new_device(name, version))
            },
            SearchTarget::DomainDeviceType(domain, type_text) => {
                let (name, version) = split_type_and_version(&type_text)?;
                Ok(TypeID::new_device_with_domain(domain, name, version))
            },
            _ => Err(crate::error::unsupported_operation(text.as_str())),
        }
    }

    /// The type of a service search target (standard or domain-qualified); any other target is
    /// an unsupported operation.
    pub fn service_from(st: SearchTarget) -> (r: Result<Self, Error>)
        ensures
            r matches Ok(t) ==> !t.is_device() && match st@ {
                TargetView::ServiceType(s) => split_type(s) matches Some((n, v)) && t.parts() == (
                    UPNP_DOMAIN@,
                    n,
                    v,
                ),
                TargetView::DomainServiceType(dom, s) => split_type(s) matches Some((n, v))
                    && t.parts() == (dom, n, v),
                _ => false,
            },
            r is Ok <==> match st@ {
                TargetView::ServiceType(s) => split_type(s) is Some,
                TargetView::DomainServiceType(_, s) => split_type(s) is Some,
                _ => false,
            },
            r matches Err(e) ==> service_type_error(e, st@),
    {
        let text = st.to_string();
        match st {
            SearchTarget::ServiceType(type_text) => {
                let (name, version) = split_type_and_version(&type_text)?;
                Ok(TypeID::new_service(name, version))
            },
            SearchTarget::DomainServiceType(domain, type_text) => {
                let (name, version) = split_type_and_version(&type_text)?;
                Ok(TypeID::new_service_with_domain(domain, name, version))
            },
            _ => Err(crate::error::unsupported_operation(text.as_str())),
        }
    }

    /// `urn:upnp-org:deviceId:{name}` or `urn:upnp-org:serviceId:{name}`.
    pub fn default_id(&self) -> (r: String)
        ensures
            r@ == if self.is_device() {
                "urn:upnp-org:deviceId:"@
            } else {
                "urn:upnp-org:serviceId:"@
            } + self.parts().1,
    {
        let mut out: Vec<char> = Vec::new();
        match self {
            TypeID::Device { name, .. } => {
                text::push_str(&mut out, "urn:upnp-org:deviceId:");
                text::push_str(&mut out, name.as_str());
            },
            TypeID::Service { name, .. } => {
                text::push_str(&mut out, "urn:upnp-org:serviceId:");
                text::push_str(&mut out, name.as_str());
            },
        }
        text::string_from_chars(out.as_slice())
    }

    /// The URN of the type.
    pub fn to_string(&self) -> (r: String)
        ensures
            r@ == self.text(),
    {
        let mut out: Vec<char> = Vec::new();
        text::push_str(&mut out, "urn:");
        match self {
            TypeID::Device { domain, name, version } => {
                text::push_str(&mut out, domain.as_str());
                text::push_str(&mut out, ":device:");
                text::push_str(&mut out, name.as_str());
                out.push(':');
                text::push_str(&mut out, version.as_str());
            },
            TypeID::Service { domain, name, version } => {
                text::push_str(&mut out, domain.as_str());
                text::push_str(&mut out, ":service:");
                text::push_str(&mut out, name.as_str());
                out.push(':');
                text::push_str(&mut out, version.as_str());
            },
        }
        assert(out@ =~= self.text());
        text::string_from_chars(out.as_slice())
    }
}

/// The name and version of `{name}:{version}`, split at the first `:`.
pub open spec fn split_type(s: Seq<char>) -> Option<(Seq<char>, Seq<char>)> {
    let i = text::find_from(s, ':', 0);
    if i < s.len() {
        Some((s.subrange(0, i), s.subrange(i + 1, s.len() as int)))
    } else {
        None
    }
}

/// The error for a target that names no device type: an invalid `type_and_version` when a
/// device type has no version, an unsupported operation on the target's text otherwise.
pub open spec fn device_type_error(e: Error, st: TargetView) -> bool {
    match st {
        TargetView::DeviceType(s) | TargetView::DomainDeviceType(_, s) => e matches Error::MessageFormat(
            m,
        ) && invalid_for_type(m, "type_and_version"@, s),
        _ => e matches Error::UnsupportedOperation { operation: o } && o@ == render_target(st),
    }
}

/// The error for a target that names no service type: an invalid `type_and_version` when a
/// service type has no version, an unsupported operation on the target's text otherwise.
pub open spec fn service_type_error(e: Error, st: TargetView) -> bool {
    match st {
        TargetView::ServiceType(s) | TargetView::DomainServiceType(_, s) => e matches Error::MessageFormat(
            m,
        ) && invalid_for_type(m, "type_and_version"@, s),
        _ => e matches Error::UnsupportedOperation { operation: o } && o@ == render_target(st),
    }
}

fn split_type_and_version(type_text: &String) -> (r: Result<(String, String), Error>)
    ensures
        r is Ok <==> split_type(type_text@) is Some,
        r matches Ok((n, v)) ==> split_type(type_text@) == Some((n@, v@)),
        r matches Err(e) ==> e matches Error::MessageFormat(m) && invalid_for_type(
            m,
            "type_and_version"@,
            type_text@,
        ),
{
    let c = text::chars_of(type_text.as_str());
    let i = text::find_char(c.as_slice(), ':', 0);
    if i < c.len() {
        Ok((text::substring(c.as_slice(), 0, i), text::substring(c.as_slice(), i + 1, c.len())))
    } else {
        Err(Error::MessageFormat(
            crate::error::invalid_value_for_type("type_and_version", type_text.as_str()),
        ))
    }
}

/// The major and minor numbers of a specification version.
pub open spec fn version_numbers(v: SpecVersion) -> (Seq<char>, Seq<char>) {
    match v {
        SpecVersion::V10 => (seq!['1'], seq!['0']),
        SpecVersion::V11 => (seq!['1'], seq!['1']),
        SpecVersion::V20 => (seq!['2'], seq!['0']),
    }
}

/// The events of a `specVersion` element.
pub open spec fn spec_version_events(v: SpecVersion) -> Seq<XmlEvent> {
    seq![XmlEvent::Start("specVersion"@, Seq::empty())] + text_element_events(
        "major"@,
        version_numbers(v).0,
    ) + text_element_events("minor"@, version_numbers(v).1) + seq![XmlEvent::End("specVersion"@)]
}

/// Writes the `specVersion` element: `major` and `minor`.
pub fn write_spec_version(w: &mut XmlWriter, v: SpecVersion) -> (r: Result<(), Error>)
    ensures
        r is Ok,
        final(w).log() == old(w).log() + spec_version_events(v),
{
    let (major, minor) = match v {
        SpecVersion::V10 => ("1", "0"),
        SpecVersion::V11 => ("1", "1"),
        SpecVersion::V20 => ("2", "0"),
    };
    proof {
        reveal_strlit("1");
        reveal_strlit("0");
        reveal_strlit("2");
    }
    assert(major@ == version_numbers(v).0 && minor@ == version_numbers(v).1);
    let e = w.start_element("specVersion")?;
    w.text_element("major", major)?;
    w.text_element("minor", minor)?;
    let r = e.end(w);
    assert(w.log() =~= old(w).log() + spec_version_events(v));
    r
}

/// The events of `<name>value</name>` when there is a value.
pub open spec fn optional_text_events(name: Seq<char>, value: Option<String>) -> Seq<XmlEvent> {
    match value {
        Some(v) => text_element_events(name, v@),
        None => Seq::empty(),
    }
}

/// Writes `<name>value</name>` when there is a value.
pub fn write_optional_text(w: &mut XmlWriter, name: &str, value: &Option<String>) -> (r: Result<(), Error>)
    ensures
        r is Ok,
        final(w).log() == old(w).log() + optional_text_events(name@, *value),
{
    match value {
        Some(v) => w.text_element(name, v.as_str()),
        None => {
            assert(w.log() =~= old(w).log() + optional_text_events(name@, *value));
            Ok(())
        },
    }
}

} // verus!
