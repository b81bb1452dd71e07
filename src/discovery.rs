//! Discovery: the product tokens that identify the parties of an exchange, and the search and
//! notification halves of SSDP.

use vstd::prelude::*;
use crate::{SpecVersion, UPNP_STRING};
use crate::text;

pub mod search;
pub mod notify;

verus! {

/// A control point. Optional before UPnP 2.0, which requires its friendly name.
#[derive(Debug)]
pub struct ControlPoint {
    /// The vendor-specific friendly name of the control point.
    pub friendly_name: String,
    /// The UUID of the control point.
    pub uuid: Option<String>,
    /// A TCP port on which devices may reply to a search.
    pub port: Option<u16>,
}

/// A product name and version, written `name/version` in `SERVER` and `USER-AGENT` headers.
#[derive(Debug)]
pub struct ProductVersion {
    pub name: String,
    pub version: String,
}

/// The three product tokens of a `SERVER` or `USER-AGENT` header: platform, UPnP, product.
#[derive(Debug)]
pub struct ProductVersions {
    pub platform: ProductVersion,
    pub upnp: ProductVersion,
    pub product: ProductVersion,
}

/// The product name used when a caller names none.
pub const DEFAULT_PRODUCT_NAME: &'static str = "upnp-rs";
/// The product version used when a caller names none.
pub const DEFAULT_PRODUCT_VERSION: &'static str = "0.1.0";

/// `name/version`.
pub open spec fn token(name: Seq<char>, version: Seq<char>) -> Seq<char> {
    name + seq!['/'] + version
}

impl ProductVersion {
    pub open spec fn text(&self) -> Seq<char> {
        token(self.name@, self.version@)
    }

    pub fn for_default_product() -> (r: Self)
        ensures
            r.name@ == DEFAULT_PRODUCT_NAME@,
            r.version@ == DEFAULT_PRODUCT_VERSION@,
    {
        Self { name: DEFAULT_PRODUCT_NAME.to_string(), version: DEFAULT_PRODUCT_VERSION.to_string() }
    }

    pub fn for_product(name: &str, version: &str) -> (r: Self)
        ensures
            r.name@ == name@,
            r.version@ == version@,
    {
        Self { name: name.to_string(), version: version.to_string() }
    }

    /// `UPnP/1.0`.
    pub fn for_default_upnp() -> (r: Self)
        ensures
            r.name@ == UPNP_STRING@,
            r.version@ == SpecVersion::V10.text(),
    {
        Self::for_upnp_version(SpecVersion::V10)
    }

    /// `UPnP/` and the version's text.
    pub fn for_upnp_version(version: SpecVersion) -> (r: Self)
        ensures
            r.name@ == UPNP_STRING@,
            r.version@ == version.text(),
    {
        Self { name: UPNP_STRING.to_string(), version: version.to_string() }
    }

    /// The token of the host platform, whose name and version a host probe supplies.
    pub fn for_platform(name: &str, version: &str) -> (r: Self)
        ensures
            r.name@ == name@,
            r.version@ == version@,
    {
        Self::for_product(name, version)
    }

    pub fn name(&self) -> (r: &String)
        ensures
            r@ == self.name@,
    {
        &self.name
    }

    pub fn version(&self) -> (r: &String)
        ensures
            r@ == self.version@,
    {
        &self.version
    }

    /// A copy with the same name and version.
    pub fn copy(&self) -> (r: Self)
        ensures
            r.name@ == self.name@,
            r.version@ == self.version@,
    {
        Self { name: self.name.clone(), version: self.version.clone() }
    }

    /// `name/version`.
    pub fn to_string(&self) -> (r: String)
        ensures
            r@ == self.text(),
    {
        let mut out: Vec<char> = Vec::new();
        text::push_str(&mut out, self.name.as_str());
        out.push('/');
        text::push_str(&mut out, self.version.as_str());
        assert(out@ =~= self.text());
        text::string_from_chars(out.as_slice())
    }
}

/// The three tokens separated by single spaces, platform first.
pub open spec fn versions_text(platform: Seq<char>, upnp: Seq<char>, product: Seq<char>) -> Seq<char> {
    platform + seq![' '] + upnp + seq![' '] + product
}

impl ProductVersions {
    pub open spec fn text(&self) -> Seq<char> {
        versions_text(self.platform.text(), self.upnp.text(), self.product.text())
    }

    pub fn new(product: ProductVersion, upnp: ProductVersion, platform: ProductVersion) -> (r: Self)
        ensures
            r.product == product,
            r.upnp == upnp,
            r.platform == platform,
    {
        Self { product, upnp, platform }
    }

    pub fn product_version(&self) -> (r: &ProductVersion)
        ensures
            r == &self.product,
    {
        &self.product
    }

    pub fn upnp_version(&self) -> (r: &ProductVersion)
        ensures
            r == &self.upnp,
    {
        &self.upnp
    }

    pub fn platform_version(&self) -> (r: &ProductVersion)
        ensures
            r == &self.platform,
    {
        &self.platform
    }

    /// `platform/version UPnP/version product/version`.
    pub fn to_string(&self) -> (r: String)
        ensures
            r@ == self.text(),
    {
        let mut out: Vec<char> = Vec::new();
        let a = self.platform.to_string();
        let b = self.upnp.to_string();
        let c = self.product.to_string();
        text::push_str(&mut out, a.as_str());
        out.push(' ');
        text::push_str(&mut out, b.as_str());
        out.push(' ');
        text::push_str(&mut out, c.as_str());
        assert(out@ =~= self.text());
        text::string_from_chars(out.as_slice())
    }
}

/// The `USER-AGENT` (or `SERVER`) value for the version: the platform token, `UPnP/` with the
/// version, and the product token.
pub open spec fn user_agent(spec_version: SpecVersion, product: Seq<char>, platform: Seq<char>) -> Seq<char> {
    versions_text(platform, token(UPNP_STRING@, spec_version.text()), product)
}

/// The user agent string; the default product stands in when `product` is `None`.
pub fn user_agent_string(
    spec_version: SpecVersion,
    product: &Option<ProductVersion>,
    platform: &ProductVersion,
) -> (r: String)
    ensures
        r@ == user_agent(
            spec_version,
            match product {
                Some(p) => p.text(),
                None => token(DEFAULT_PRODUCT_NAME@, DEFAULT_PRODUCT_VERSION@),
            },
            platform.text(),
        ),
{
    let product = match product {
        Some(p) => p.copy(),
        None => ProductVersion::for_default_product(),
    };
    let versions = ProductVersions::new(
        product,
        ProductVersion::for_upnp_version(spec_version),
        platform.copy(),
    );
    versions.to_string()
}

} // verus!
