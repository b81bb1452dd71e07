//! SOAP control messages: an action of a service type and the envelope that carries it.

use vstd::prelude::*;
use crate::description::TypeID;
use crate::headers::Headers;
use crate::text;

verus! {

pub const SOAP_NS_ENVELOPE: &'static str = "http://schemas.xmlsoap.org/soap/envelope/";
pub const SOAP_NS_ENCODING: &'static str = "http://schemas.xmlsoap.org/soap/encoding/";

/// An action of a service type.
#[derive(Debug)]
pub struct Action {
    pub service: TypeID,
    pub action: String,
}

/// The body of an envelope: a call, its response, or a fault.
#[derive(Debug)]
pub enum Body {
    Action { action: Action, arguments: Headers },
    Response { action: Action, arguments: Headers },
    Fault { code: String, string: String, upnp_code: String, upnp_description: String },
}

/// A SOAP envelope.
#[derive(Debug)]
pub struct Envelope {
    pub schema: String,
    pub encoding_style: String,
    pub body: Body,
}

impl TypeID {
    /// A copy with the same kind and parts.
    pub fn copy(&self) -> (r: TypeID)
        ensures
            r.is_device() == self.is_device(),
            r.parts() == self.parts(),
    {
        match self {
            TypeID::Device { domain, name, version } => TypeID::Device {
                domain: domain.clone(),
                name: name.clone(),
                version: version.clone(),
            },
            TypeID::Service { domain, name, version } => TypeID::Service {
                domain: domain.clone(),
                name: name.clone(),
                version: version.clone(),
            },
        }
    }
}

impl Action {
    pub fn new(service: TypeID, action: String) -> (r: Self)
        ensures
            r.service == service,
            r.action == action,
    {
        Action { service, action }
    }

    /// The same service type with another action.
    pub fn copy_to(&self, action: String) -> (r: Self)
        ensures
            r.service.is_device() == self.service.is_device(),
            r.service.parts() == self.service.parts(),
            r.action == action,
    {
        Action { service: self.service.copy(), action }
    }

    /// `{service type}#{action}`, the value of a `SOAPACTION` header.
    pub fn to_string(&self) -> (r: String)
        ensures
            r@ == self.service.text() + seq!['#'] + self.action@,
    {
        let mut out: Vec<char> = Vec::new();
        let t = self.service.to_string();
        text::push_str(&mut out, t.as_str());
        out.push('#');
        text::push_str(&mut out, self.action.as_str());
        assert(out@ =~= self.service.text() + seq!['#'] + self.action@);
        text::string_from_chars(out.as_slice())
    }
}

impl Envelope {
    /// A call of the action without arguments.
    pub fn new(action: Action) -> (r: Self)
        ensures
            r.schema@ == SOAP_NS_ENVELOPE@,
            r.encoding_style@ == SOAP_NS_ENCODING@,
            r.body matches Body::Action { action: a, arguments } && a == action && arguments@.len() == 0,
    {
        Self::new_with(action, Headers::new())
    }

    /// A call of the action with arguments.
    pub fn new_with(action: Action, arguments: Headers) -> (r: Self)
        ensures
            r.schema@ == SOAP_NS_ENVELOPE@,
            r.encoding_style@ == SOAP_NS_ENCODING@,
            r.body == (Body::Action { action, arguments }),
    {
        Envelope {
            schema: SOAP_NS_ENVELOPE.to_string(),
            encoding_style: SOAP_NS_ENCODING.to_string(),
            body: Body::Action { action, arguments },
        }
    }

    /// The response to a call of the action, with its out arguments.
    pub fn new_response(action: Action, arguments: Headers) -> (r: Self)
        ensures
            r.schema@ == SOAP_NS_ENVELOPE@,
            r.encoding_style@ == SOAP_NS_ENCODING@,
            r.body == (Body::Response { action, arguments }),
    {
        Envelope {
            schema: SOAP_NS_ENVELOPE.to_string(),
            encoding_style: SOAP_NS_ENCODING.to_string(),
            body: Body::Response { action, arguments },
        }
    }
}

} // verus!
