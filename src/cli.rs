//! The command line's vocabulary: search targets as a user writes them, version names, and
//! its errors.

use vstd::prelude::*;
use crate::discovery::search::{SearchTarget, TargetView};
use crate::text::{self, starts};
use crate::SpecVersion;

verus! {

/// A search target as written on the command line: `all`, `root`, `device:{id}`,
/// `device-type:{id}` or `service-type:{id}`.
#[derive(Clone, Debug, PartialEq, Eq)]
pub enum CLSearchTarget {
    All,
    RootDevice,
    Device(String),
    DeviceType(String),
    ServiceType(String),
}

/// An error in the command line's arguments.
#[derive(Clone, Debug, PartialEq, Eq)]
pub enum CommandLineError {
    MissingParameter(String),
    UnexpectedParameter(String),
    InvalidParameterValue(String, String),
}

pub enum CLTargetView {
    All,
    RootDevice,
    Device(Seq<char>),
    DeviceType(Seq<char>),
    ServiceType(Seq<char>),
}

impl View for CLSearchTarget {
    type V = CLTargetView;

    open spec fn view(&self) -> CLTargetView {
        match self {
            CLSearchTarget::All => CLTargetView::All,
            CLSearchTarget::RootDevice => CLTargetView::RootDevice,
            CLSearchTarget::Device(s) => CLTargetView::Device(s@),
            CLSearchTarget::DeviceType(s) => CLTargetView::DeviceType(s@),
            CLSearchTarget::ServiceType(s) => CLTargetView::ServiceType(s@),
        }
    }
}

/// The target a command-line text names: empty text means root devices.
pub open spec fn cl_target_of(s: Seq<char>) -> Option<CLTargetView> {
    if s.len() == 0 {
        Some(CLTargetView::RootDevice)
    } else if s == "all"@ {
        Some(CLTargetView::All)
    } else if s == "root"@ {
        Some(CLTargetView::RootDevice)
    } else if starts(s, "device:"@) {
        Some(CLTargetView::Device(s.subrange(7, s.len() as int)))
    } else if starts(s, "device-type:"@) {
        Some(CLTargetView::DeviceType(s.subrange(12, s.len() as int)))
    } else if starts(s, "service-type:"@) {
        Some(CLTargetView::ServiceType(s.subrange(13, s.len() as int)))
    } else {
        None
    }
}

impl CLSearchTarget {
    /// Reads a command-line search target; other text is an invalid `search_target`.
    pub fn from_str(s: &str) -> (r: Result<CLSearchTarget, CommandLineError>)
        ensures
            r is Ok <==> cl_target_of(s@) is Some,
            r matches Ok(t) ==> cl_target_of(s@) == Some(t@),
            r matches Err(e) ==> e matches CommandLineError::InvalidParameterValue(p, v) && p@
                == "search_target"@ && v@ == s@,
    {
        proof {
            reveal_strlit("device:");
            reveal_strlit("device-type:");
            reveal_strlit("service-type:");
        }
        let c = text::chars_of(s);
        let n = c.len();
        if n == 0 {
            Ok(CLSearchTarget::RootDevice)
        } else if text::equals_str(c.as_slice(), "all") {
            Ok(CLSearchTarget::All)
        } else if text::equals_str(c.as_slice(), "root") {
            Ok(CLSearchTarget::RootDevice)
        } else if text::starts_with(c.as_slice(), "device:") {
            Ok(CLSearchTarget::Device(text::substring(c.as_slice(), 7, n)))
        } else if text::starts_with(c.as_slice(), "device-type:") {
            Ok(CLSearchTarget::DeviceType(text::substring(c.as_slice(), 12, n)))
        } else if text::starts_with(c.as_slice(), "service-type:") {
            Ok(CLSearchTarget::ServiceType(text::substring(c.as_slice(), 13, n)))
        } else {
            Err(CommandLineError::InvalidParameterValue("search_target".to_string(), s.to_string()))
        }
    }

    /// The search target meant, type targets qualified by `domain` when one is given.
    pub fn to_search_target(self, domain: Option<String>) -> (r: SearchTarget)
        ensures
            r@ == match (self@, domain) {
                (CLTargetView::All, _) => TargetView::All,
                (CLTargetView::RootDevice, _) => TargetView::RootDevice,
                (CLTargetView::Device(d), _) => TargetView::Device(d),
                (CLTargetView::DeviceType(t), Some(dom)) => TargetView::DomainDeviceType(dom@, t),
                (CLTargetView::DeviceType(t), None) => TargetView::DeviceType(t),
                (CLTargetView::ServiceType(t), Some(dom)) => TargetView::DomainServiceType(dom@, t),
                (CLTargetView::ServiceType(t), None) => TargetView::ServiceType(t),
            },
    {
        match self {
            CLSearchTarget::All => SearchTarget::All,
            CLSearchTarget::RootDevice => SearchTarget::RootDevice,
            CLSearchTarget::Device(d) => SearchTarget::Device(d),
            CLSearchTarget::DeviceType(t) => match domain {
                Some(domain) => SearchTarget::DomainDeviceType(domain, t),
                None => SearchTarget::DeviceType(t),
            },
            CLSearchTarget::ServiceType(t) => match domain {
                Some(domain) => SearchTarget::DomainServiceType(domain, t),
                None => SearchTarget::ServiceType(t),
            },
        }
    }
}

impl CommandLineError {
    /// A one-line description of the error.
    pub fn to_string(&self) -> (r: String)
        ensures
            r@ == match self {
                CommandLineError::MissingParameter(p) => "Parameter "@ + p@ + " required"@,
                CommandLineError::UnexpectedParameter(p) => "Parameter "@ + p@ + " unnecessary"@,
                CommandLineError::InvalidParameterValue(p, v) => "Value '"@ + v@
                    + "' invalid for parameter "@ + p@,
            },
    {
        let mut out: Vec<char> = Vec::new();
        match self {
            CommandLineError::MissingParameter(p) => {
                text::push_str(&mut out, "Parameter ");
                text::push_str(&mut out, p.as_str());
                text::push_str(&mut out, " required");
            },
            CommandLineError::UnexpectedParameter(p) => {
                text::push_str(&mut out, "Parameter ");
                text::push_str(&mut out, p.as_str());
                text::push_str(&mut out, " unnecessary");
            },
            CommandLineError::InvalidParameterValue(p, v) => {
                text::push_str(&mut out, "Value '");
                text::push_str(&mut out, v.as_str());
                text::push_str(&mut out, "' invalid for parameter ");
                text::push_str(&mut out, p.as_str());
            },
        }
        text::string_from_chars(out.as_slice())
    }
}

/// The version a command line names; 1.0 when it names none or one unknown.
pub fn parse_version(version: Option<String>) -> (r: SpecVersion)
    ensures
        r == match version {
            Some(s) => if s@ == SpecVersion::V11.text() {
                SpecVersion::V11
            } else if s@ == SpecVersion::V20.text() {
                SpecVersion::V20
            } else {
                SpecVersion::V10
            },
            None => SpecVersion::V10,
        },
{
    match version {
        Some(s) => match SpecVersion::from_str(s.as_str()) {
            Ok(v) => v,
            Err(_) => SpecVersion::V10,
        },
        None => SpecVersion::V10,
    }
}

} // verus!
