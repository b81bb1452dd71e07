//! A client core for the UPnP Device Architecture: SSDP search and notification messages,
//! the HTTP-over-UDP codec they travel in, the response cache, and the description writers.

use vstd::prelude::*;

pub mod text;
pub mod error;
pub mod syntax;
pub mod headers;
pub mod discovery;
pub mod httpu;
pub mod interface;
pub mod xml;
pub mod description;
pub mod soap;
pub mod cli;
pub mod dom;

verus! {

/// The version of the UPnP Device Architecture that an interaction follows; a later version
/// may require or allow headers that an earlier one does not.
#[derive(Clone, Copy, Debug, Hash, PartialEq, Eq, Structural, PartialOrd, Ord)]
pub enum SpecVersion {
    V10,
    V11,
    V20,
}

/// The protocol name used in product tokens and identifiers.
pub const UPNP_STRING: &'static str = "UPnP";

/// The domain part of standard UPnP URNs.
pub const UPNP_DOMAIN: &'static str = "schemas-upnp-org";

impl SpecVersion {
    /// The position of the version in the order 1.0 < 1.1 < 2.0.
    pub open spec fn rank(self) -> nat {
        match self {
            SpecVersion::V10 => 0,
            SpecVersion::V11 => 1,
            SpecVersion::V20 => 2,
        }
    }

    pub open spec fn spec_at_least(self, other: SpecVersion) -> bool {
        self.rank() >= other.rank()
    }

    /// The text of the version: `1.0`, `1.1` or `2.0`.
    pub open spec fn text(self) -> Seq<char> {
        match self {
            SpecVersion::V10 => seq!['1', '.', '0'],
            SpecVersion::V11 => seq!['1', '.', '1'],
            SpecVersion::V20 => seq!['2', '.', '0'],
        }
    }

    /// Whether this version is the same as or later than `other`.
    #[verifier::when_used_as_spec(spec_at_least)]
    pub fn at_least(self, other: SpecVersion) -> (r: bool)
        ensures
            r == self.spec_at_least(other),
    {
        let a: u8 = match self {
            SpecVersion::V10 => 0,
            SpecVersion::V11 => 1,
            SpecVersion::V20 => 2,
        };
        let b: u8 = match other {
            SpecVersion::V10 => 0,
            SpecVersion::V11 => 1,
            SpecVersion::V20 => 2,
        };
        a >= b
    }

    /// The version's text, as it appears in product tokens.
    pub fn to_string(&self) -> (r: String)
        ensures
            r@ == self.text(),
    {
        let v: Vec<char> = match self {
            SpecVersion::V10 => vec!['1', '.', '0'],
            SpecVersion::V11 => vec!['1', '.', '1'],
            SpecVersion::V20 => vec!['2', '.', '0'],
        };
        text::string_from_chars(v.as_slice())
    }

    /// Reads a version from its text; any other text is an invalid value of the field
    /// `version`.
    pub fn from_str(s: &str) -> (r: Result<SpecVersion, error::MessageFormatError>)
        ensures
            r matches Ok(v) ==> v.text() == s@,
            r is Ok <==> (s@ == SpecVersion::V10.text() || s@ == SpecVersion::V11.text()
                || s@ == SpecVersion::V20.text()),
            r matches Err(e) ==> error::invalid_value(e, error::ValueSource::Field,
                seq!['v', 'e', 'r', 's', 'i', 'o', 'n'], s@),
    {
        let c = text::chars_of(s);
        let candidates = [SpecVersion::V10, SpecVersion::V11, SpecVersion::V20];
        let mut i: usize = 0;
        while i < 3
            invariant
                c@ == s@,
                candidates@ == seq![SpecVersion::V10, SpecVersion::V11, SpecVersion::V20],
                forall|j: int| 0 <= j < i ==> candidates@[j].text() != s@,
            decreases 3 - i,
        {
            let v = candidates[i];
            let t = v.to_string();
            let tc = text::chars_of(t.as_str());
            if text::chars_equal(tc.as_slice(), c.as_slice()) {
                return Ok(v);
            }
            i = i + 1;
        }
        assert(candidates@[0].text() != s@ && candidates@[1].text() != s@
            && candidates@[2].text() != s@);
        let name = text::string_from_chars(vec!['v', 'e', 'r', 's', 'i', 'o', 'n'].as_slice());
        Err(error::invalid_field_value_string(name, text::string_from_chars(c.as_slice())))
    }
}

impl Default for SpecVersion {
    fn default() -> (r: SpecVersion)
        ensures
            r == SpecVersion::V10,
    {
        SpecVersion::V10
    }
}


} // verus!
