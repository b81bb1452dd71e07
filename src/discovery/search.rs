//! Search targets and, for control points, the building of search requests and the reading of
//! the responses that devices send back.

use vstd::prelude::*;
use crate::discovery::{
    token, user_agent, user_agent_string, ControlPoint, ProductVersion, ProductVersions, DEFAULT_PRODUCT_NAME,
    DEFAULT_PRODUCT_VERSION,
};
use crate::interface::IP;
use crate::error::{invalid_for_type, invalid_value, missing_value, Error, MessageFormatError, ValueSource};
use crate::headers::{self, has_key, insert, join, lookup, missing_names, not_empty_or, HeaderSeq, Headers};
use crate::httpu::{Request, RequestBuilder};
use crate::syntax::{
    DEFAULT_DATE, DEFAULT_LOCATION, HTTP_EXTENSION, HTTP_HEADER_BOOTID, HTTP_HEADER_CP_FN,
    HTTP_HEADER_CP_UUID, HTTP_HEADER_HOST, HTTP_HEADER_MAN, HTTP_HEADER_MX, HTTP_HEADER_TCP_PORT,
    HTTP_HEADER_USER_AGENT, HTTP_METHOD_SEARCH, MULTICAST_ADDRESS, HTTP_HEADER_CACHE_CONTROL, HTTP_HEADER_CONFIGID,
    HTTP_HEADER_DATE, HTTP_HEADER_EXT, HTTP_HEADER_LOCATION, HTTP_HEADER_SEARCH_PORT,
    HTTP_HEADER_SERVER, HTTP_HEADER_ST, HTTP_HEADER_USN,
};
use crate::SpecVersion;
use crate::httpu::{self, run_end, CharClass};
use crate::text::{self, digits_value, is_digit, parses_as_unsigned, starts, trim, unsigned_value};

verus! {

/// The value of an `ST` (search target) or `NT` (notification type) header.
#[derive(Clone, Debug, PartialEq, Eq)]
pub enum SearchTarget {
    /// `ssdp::all`
    All,
    /// `upnp:rootdevice`
    RootDevice,
    /// `uuid:{device-UUID}`
    Device(String),
    /// `urn:schemas-upnp-org:device:{deviceType:ver}`
    DeviceType(String),
    /// `urn:schemas-upnp-org:service:{serviceType:ver}`
    ServiceType(String),
    /// `urn:{domain-name}:device:{deviceType:ver}`
    DomainDeviceType(String, String),
    /// `urn:{domain-name}:service:{serviceType:ver}`
    DomainServiceType(String, String),
}

/// A search target as character sequences.
pub enum TargetView {
    All,
    RootDevice,
    Device(Seq<char>),
    DeviceType(Seq<char>),
    ServiceType(Seq<char>),
    DomainDeviceType(Seq<char>, Seq<char>),
    DomainServiceType(Seq<char>, Seq<char>),
}

impl View for SearchTarget {
    type V = TargetView;

    open spec fn view(&self) -> TargetView {
        match self {
            SearchTarget::All => TargetView::All,
            SearchTarget::RootDevice => TargetView::RootDevice,
            SearchTarget::Device(u) => TargetView::Device(u@),
            SearchTarget::DeviceType(d) => TargetView::DeviceType(d@),
            SearchTarget::ServiceType(s) => TargetView::ServiceType(s@),
            SearchTarget::DomainDeviceType(dom, d) => TargetView::DomainDeviceType(dom@, d@),
            SearchTarget::DomainServiceType(dom, s) => TargetView::DomainServiceType(dom@, s@),
        }
    }
}

/// The text of a search target.
pub open spec fn render_target(t: TargetView) -> Seq<char> {
    match t {
        TargetView::All => "ssdp::all"@,
        TargetView::RootDevice => "upnp:rootdevice"@,
        TargetView::Device(u) => "uuid:"@ + u,
        TargetView::DeviceType(d) => "urn:schemas-upnp-org:device:"@ + d,
        TargetView::ServiceType(s) => "urn:schemas-upnp-org:service:"@ + s,
        TargetView::DomainDeviceType(dom, d) => "urn:"@ + dom + ":device:"@ + d,
        TargetView::DomainServiceType(dom, s) => "urn:"@ + dom + ":service:"@ + s,
    }
}

/// The index of the first `:` at or after `i`, or the length when there is none.
pub open spec fn colon_from(s: Seq<char>, i: int) -> int
    decreases s.len() - i,
{
    if i < 0 || i >= s.len() {
        s.len() as int
    } else if s[i] == ':' {
        i
    } else {
        colon_from(s, i + 1)
    }
}

/// What `.+$` matches: at least one character, none of them a line feed.
pub open spec fn one_line(t: Seq<char>) -> bool {
    t.len() > 0 && forall|i: int| 0 <= i < t.len() ==> t[i] != '\n'
}

/// A domain-qualified type: `urn:{domain}:(device|service):{type}`, the domain without `:`.
pub open spec fn domain_target(s: Seq<char>) -> Option<TargetView> {
    let j = colon_from(s, 4);
    if 4 < j < s.len() {
        let dom = s.subrange(4, j);
        let rest = s.subrange(j + 1, s.len() as int);
        if starts(rest, "device:"@) && one_line(rest.subrange(7, rest.len() as int)) {
            Some(TargetView::DomainDeviceType(dom, rest.subrange(7, rest.len() as int)))
        } else if starts(rest, "service:"@) && one_line(rest.subrange(8, rest.len() as int)) {
            Some(TargetView::DomainServiceType(dom, rest.subrange(8, rest.len() as int)))
        } else {
            None
        }
    } else {
        None
    }
}

/// The search target that a text denotes, trying in order the two literals, the `uuid:`
/// prefix, the two standard type prefixes, then the domain-qualified form.
pub open spec fn target_of(s: Seq<char>) -> Option<TargetView> {
    if s == "ssdp::all"@ {
        Some(TargetView::All)
    } else if s == "upnp:rootdevice"@ {
        Some(TargetView::RootDevice)
    } else if starts(s, "uuid:"@) {
        Some(TargetView::Device(s.subrange(5, s.len() as int)))
    } else if starts(s, "urn:schemas-upnp-org:device:"@) {
        Some(TargetView::DeviceType(s.subrange(28, s.len() as int)))
    } else if starts(s, "urn:schemas-upnp-org:service:"@) {
        Some(TargetView::ServiceType(s.subrange(29, s.len() as int)))
    } else if starts(s, "urn:"@) {
        domain_target(s)
    } else {
        None
    }
}

/// The type named in the error for text that `target_of` rejects.
pub open spec fn target_error_type(s: Seq<char>) -> Seq<char> {
    if starts(s, "urn:"@) {
        "URN"@
    } else {
        "SearchTarget"@
    }
}

/// A search target whose text reads back as itself: a domain-qualified type needs a
/// non-empty domain without `:` other than the standard one, and a type of one line.
pub open spec fn renders_uniquely(t: TargetView) -> bool {
    match t {
        TargetView::DomainDeviceType(dom, d) => dom.len() > 0 && (forall|i: int|
            0 <= i < dom.len() ==> dom[i] != ':') && dom != "schemas-upnp-org"@ && one_line(d),
        TargetView::DomainServiceType(dom, s) => dom.len() > 0 && (forall|i: int|
            0 <= i < dom.len() ==> dom[i] != ':') && dom != "schemas-upnp-org"@ && one_line(s),
        _ => true,
    }
}

proof fn lemma_colon_from(s: Seq<char>, i: int, j: int)
    requires
        0 <= i <= j < s.len(),
        s[j] == ':',
        forall|k: int| i <= k < j ==> s[k] != ':',
    ensures
        colon_from(s, i) == j,
    decreases j - i,
{
    if i < j {
        lemma_colon_from(s, i + 1, j);
    }
}

proof fn lemma_domain_round_trip(dom: Seq<char>, kind: Seq<char>, d: Seq<char>)
    requires
        dom.len() > 0,
        forall|i: int| 0 <= i < dom.len() ==> dom[i] != ':',
        dom != "schemas-upnp-org"@,
        one_line(d),
        kind == ":device:"@ || kind == ":service:"@,
    ensures
        ({
            let s = "urn:"@ + dom + kind + d;
            &&& s != "ssdp::all"@
            &&& s != "upnp:rootdevice"@
            &&& !starts(s, "uuid:"@)
            &&& !starts(s, "urn:schemas-upnp-org:device:"@)
            &&& !starts(s, "urn:schemas-upnp-org:service:"@)
            &&& starts(s, "urn:"@)
            &&& domain_target(s) == if kind == ":device:"@ {
                Some(TargetView::DomainDeviceType(dom, d))
            } else {
                Some(TargetView::DomainServiceType(dom, d))
            }
        }),
{
    reveal_strlit("urn:");
    reveal_strlit(":device:");
    reveal_strlit(":service:");
    reveal_strlit("device:");
    reveal_strlit("service:");
    reveal_strlit("ssdp::all");
    reveal_strlit("upnp:rootdevice");
    reveal_strlit("uuid:");
    reveal_strlit("urn:schemas-upnp-org:device:");
    reveal_strlit("urn:schemas-upnp-org:service:");
    reveal_strlit("schemas-upnp-org");
    let s = "urn:"@ + dom + kind + d;
    let j: int = 4 + dom.len() as int;
    assert(s[0] == 'u' && s[1] == 'r');
    assert(s.subrange(0, 4) =~= "urn:"@);
    assert(s[j] == ':');
    assert forall|k: int| 4 <= k < j implies s[k] != ':' by {
        assert(s[k] == dom[k - 4]);
    }
    lemma_colon_from(s, 4, j);
    assert(s.subrange(4, j) =~= dom);
    let l = "schemas-upnp-org"@;
    assert forall|i: int| 0 <= i < 16 implies l[i] != ':' && "urn:schemas-upnp-org:device:"@[4
        + i] == l[i] && "urn:schemas-upnp-org:service:"@[4 + i] == l[i] by {
        assert(i == 0 || i == 1 || i == 2 || i == 3 || i == 4 || i == 5 || i == 6 || i == 7 || i
            == 8 || i == 9 || i == 10 || i == 11 || i == 12 || i == 13 || i == 14 || i == 15);
    }
    if starts(s, "urn:schemas-upnp-org:device:"@) || starts(s, "urn:schemas-upnp-org:service:"@) {
        // the prefix holds a `:` right after `schemas-upnp-org`, so the domain would be that
        let p = if starts(s, "urn:schemas-upnp-org:device:"@) {
            "urn:schemas-upnp-org:device:"@
        } else {
            "urn:schemas-upnp-org:service:"@
        };
        assert(s.subrange(0, p.len() as int)[20] == s[20]);
        assert(p[20] == ':');
        if dom.len() < 16 {
            assert(s.subrange(0, p.len() as int)[j] == s[j]);
            assert(l[j - 4] == p[j]);
        } else if dom.len() > 16 {
            assert(s[20] == dom[16]);
        } else {
            assert forall|i: int| 0 <= i < 16 implies dom[i] == l[i] by {
                assert(s.subrange(0, p.len() as int)[4 + i] == s[4 + i]);
                assert(s[4 + i] == dom[i]);
            }
            assert(dom =~= l);
        }
    }
    let rest = s.subrange(j + 1, s.len() as int);
    if kind == ":device:"@ {
        assert(rest.subrange(0, 7) =~= "device:"@);
        assert(rest.subrange(7, rest.len() as int) =~= d);
    } else {
        assert(rest.subrange(0, 7) != "device:"@) by {
            assert(s[j + 1] == kind[1]);
            assert(rest.subrange(0, 7)[0] == rest[0]);
            assert(rest[0] == s[j + 1]);
            assert("device:"@[0] != kind[1]);
        }
        assert(rest.subrange(0, 8) =~= "service:"@);
        assert(rest.subrange(8, rest.len() as int) =~= d);
    }
}

/// Reading a search target back from its text gives the same target.
pub proof fn lemma_search_target_round_trip(t: TargetView)
    requires
        renders_uniquely(t),
    ensures
        target_of(render_target(t)) == Some(t),
{
    reveal_strlit("ssdp::all");
    reveal_strlit("upnp:rootdevice");
    reveal_strlit("uuid:");
    reveal_strlit("urn:schemas-upnp-org:device:");
    reveal_strlit("urn:schemas-upnp-org:service:");
    match t {
        TargetView::All => {},
        TargetView::RootDevice => {
            assert("upnp:rootdevice"@[0] != "ssdp::all"@[0]);
        },
        TargetView::Device(u) => {
            let s = "uuid:"@ + u;
            assert(s[0] != "ssdp::all"@[0]);
            assert(s[1] != "upnp:rootdevice"@[1]);
            assert(s.subrange(0, 5) =~= "uuid:"@);
            assert(s.subrange(5, s.len() as int) =~= u);
        },
        TargetView::DeviceType(d) => {
            let s = "urn:schemas-upnp-org:device:"@ + d;
            assert(s[0] != "ssdp::all"@[0]);
            assert(s[1] != "upnp:rootdevice"@[1]);
            assert(s[1] != "uuid:"@[1]);
            assert(s.subrange(0, 28) =~= "urn:schemas-upnp-org:device:"@);
            assert(s.subrange(28, s.len() as int) =~= d);
        },
        TargetView::ServiceType(v) => {
            let s = "urn:schemas-upnp-org:service:"@ + v;
            assert(s[0] != "ssdp::all"@[0]);
            assert(s[1] != "upnp:rootdevice"@[1]);
            assert(s[1] != "uuid:"@[1]);
            assert(s[21] != "urn:schemas-upnp-org:device:"@[21]);
            assert(s.subrange(0, 29) =~= "urn:schemas-upnp-org:service:"@);
            assert(s.subrange(29, s.len() as int) =~= v);
        },
        TargetView::DomainDeviceType(dom, d) => {
            lemma_domain_round_trip(dom, ":device:"@, d);
            assert("urn:"@ + dom + ":device:"@ + d == render_target(t));
        },
        TargetView::DomainServiceType(dom, v) => {
            reveal_strlit(":device:");
            reveal_strlit(":service:");
            assert(":service:"@[1] != ":device:"@[1]);
            lemma_domain_round_trip(dom, ":service:"@, v);
        },
    }
}

} // verus!

verus! {

impl SearchTarget {
    /// A copy of the target.
    pub fn copy(&self) -> (r: SearchTarget)
        ensures
            r@ == self@,
    {
        match self {
            SearchTarget::All => SearchTarget::All,
            SearchTarget::RootDevice => SearchTarget::RootDevice,
            SearchTarget::Device(u) => SearchTarget::Device(u.clone()),
            SearchTarget::DeviceType(d) => SearchTarget::DeviceType(d.clone()),
            SearchTarget::ServiceType(s) => SearchTarget::ServiceType(s.clone()),
            SearchTarget::DomainDeviceType(dom, d) => SearchTarget::DomainDeviceType(
                dom.clone(),
                d.clone(),
            ),
            SearchTarget::DomainServiceType(dom, s) => SearchTarget::DomainServiceType(
                dom.clone(),
                s.clone(),
            ),
        }
    }

    /// The header text of the target.
    pub fn to_string(&self) -> (r: String)
        ensures
            r@ == render_target(self@),
    {
        let mut out: Vec<char> = Vec::new();
        match self {
            SearchTarget::All => text::push_str(&mut out, "ssdp::all"),
            SearchTarget::RootDevice => text::push_str(&mut out, "upnp:rootdevice"),
            SearchTarget::Device(u) => {
                text::push_str(&mut out, "uuid:");
                text::push_str(&mut out, u.as_str());
            },
            SearchTarget::DeviceType(d) => {
                text::push_str(&mut out, "urn:schemas-upnp-org:device:");
                text::push_str(&mut out, d.as_str());
            },
            SearchTarget::ServiceType(s) => {
                text::push_str(&mut out, "urn:schemas-upnp-org:service:");
                text::push_str(&mut out, s.as_str());
            },
            SearchTarget::DomainDeviceType(dom, d) => {
                text::push_str(&mut out, "urn:");
                text::push_str(&mut out, dom.as_str());
                text::push_str(&mut out, ":device:");
                text::push_str(&mut out, d.as_str());
            },
            SearchTarget::DomainServiceType(dom, s) => {
                text::push_str(&mut out, "urn:");
                text::push_str(&mut out, dom.as_str());
                text::push_str(&mut out, ":service:");
                text::push_str(&mut out, s.as_str());
            },
        }
        assert(out@ =~= render_target(self@));
        text::string_from_chars(out.as_slice())
    }

    /// Reads a search target from header text.
    pub fn from_str(s: &str) -> (r: Result<SearchTarget, MessageFormatError>)
        ensures
            r is Ok <==> target_of(s@) is Some,
            r matches Ok(t) ==> target_of(s@) == Some(t@),
            r matches Err(e) ==> invalid_for_type(e, target_error_type(s@), s@),
    {
        let c = text::chars_of(s);
        let n = c.len();
        proof {
            reveal_strlit("uuid:");
            reveal_strlit("urn:schemas-upnp-org:device:");
            reveal_strlit("urn:schemas-upnp-org:service:");
        }
        if text::equals_str(c.as_slice(), "ssdp::all") {
            Ok(SearchTarget::All)
        } else if text::equals_str(c.as_slice(), "upnp:rootdevice") {
            Ok(SearchTarget::RootDevice)
        } else if text::starts_with(c.as_slice(), "uuid:") {
            Ok(SearchTarget::Device(text::string_from_chars(text::slice_range(c.as_slice(), 5, n))))
        } else if text::starts_with(c.as_slice(), "urn:schemas-upnp-org:device:") {
            Ok(SearchTarget::DeviceType(text::string_from_chars(text::slice_range(c.as_slice(), 28, n))))
        } else if text::starts_with(c.as_slice(), "urn:schemas-upnp-org:service:") {
            Ok(SearchTarget::ServiceType(text::string_from_chars(text::slice_range(c.as_slice(), 29, n))))
        } else if text::starts_with(c.as_slice(), "urn:") {
            match parse_domain_target(c.as_slice()) {
                Some(t) => Ok(t),
                None => Err(crate::error::invalid_value_for_type("URN", s)),
            }
        } else {
            Err(crate::error::invalid_value_for_type("SearchTarget", s))
        }
    }
}

/// The index of the first `:` at or after `i`.
fn find_colon(s: &[char], i: usize) -> (r: usize)
    requires
        i <= s@.len(),
    ensures
        r as int == colon_from(s@, i as int),
{
    let mut k: usize = i;
    while k < s.len() && s[k] != ':'
        invariant
            i <= k <= s@.len(),
            colon_from(s@, i as int) == colon_from(s@, k as int),
        decreases s.len() - k,
    {
        k = k + 1;
    }
    k
}

/// Whether no character is a line feed and there is at least one.
fn is_one_line(t: &[char]) -> (r: bool)
    ensures
        r == one_line(t@),
{
    if t.len() == 0 {
        return false;
    }
    let mut i: usize = 0;
    while i < t.len()
        invariant
            i <= t@.len(),
            forall|j: int| 0 <= j < i ==> t@[j] != '\n',
        decreases t.len() - i,
    {
        if t[i] == '\n' {
            return false;
        }
        i = i + 1;
    }
    true
}

/// Reads the domain-qualified form `urn:{domain}:(device|service):{type}`.
fn parse_domain_target(s: &[char]) -> (r: Option<SearchTarget>)
    requires
        starts(s@, "urn:"@),
    ensures
        r is Some <==> domain_target(s@) is Some,
        r matches Some(t) ==> domain_target(s@) == Some(t@),
{
    proof {
        reveal_strlit("urn:");
        reveal_strlit("device:");
        reveal_strlit("service:");
    }
    let n = s.len();
    let j = find_colon(s, 4);
    if !(4 < j && j < n) {
        return None;
    }
    let dom = text::slice_range(s, 4, j);
    let rest = text::slice_range(s, j + 1, n);
    if text::starts_with(rest, "device:") {
        let t = text::slice_range(rest, 7, rest.len());
        if is_one_line(t) {
            return Some(SearchTarget::DomainDeviceType(
                text::string_from_chars(dom),
                text::string_from_chars(t),
            ));
        }
    }
    if text::starts_with(rest, "service:") {
        let t = text::slice_range(rest, 8, rest.len());
        if is_one_line(t) {
            return Some(SearchTarget::DomainServiceType(
                text::string_from_chars(dom),
                text::string_from_chars(t),
            ));
        }
    }
    None
}

} // verus!

verus! {

/// Where a product token `name/version` that starts at `i` ends: the end of its name (a `/`)
/// and the end of its version (digits and dots).
pub open spec fn token_at(s: Seq<char>, i: int) -> Option<(int, int)> {
    let slash = text::find_from(s, '/', i);
    let end = run_end(s, slash + 1, CharClass::VersionChar);
    if 0 <= i < slash < s.len() && end > slash + 1 {
        Some((slash, end))
    } else {
        None
    }
}

/// Where the next token starts after the separator at `j`: an optional comma, then white space.
/// When a `/` follows the white space at once, the last white space character is the next
/// token's name, as a backtracking match gives it.
pub open spec fn separator_end(s: Seq<char>, j: int) -> Option<int> {
    let k = if 0 <= j < s.len() && s[j] == ',' {
        j + 1
    } else {
        j
    };
    let w = run_end(s, k, CharClass::Space);
    if w > k {
        if w < s.len() && s[w] == '/' && w - k >= 2 {
            Some(w - 1)
        } else {
            Some(w)
        }
    } else {
        None
    }
}

/// The three `(name, version)` pairs of a `SERVER` value
/// `{name}/{version}[,] {name}/{version}[,] {name}/{version}`: names hold no `/` (the second
/// and third begin after the white space), versions are digits and dots, and the last version
/// ends the value.
pub open spec fn server_tokens(s: Seq<char>) -> Option<Seq<(Seq<char>, Seq<char>)>> {
    match token_at(s, 0) {
        None => None,
        Some((s1, e1)) => match separator_end(s, e1) {
            None => None,
            Some(b2) => match token_at(s, b2) {
                None => None,
                Some((s2, e2)) => match separator_end(s, e2) {
                    None => None,
                    Some(b3) => match token_at(s, b3) {
                        None => None,
                        Some((s3, e3)) => if e3 == s.len() {
                            Some(
                                seq![
                                    (s.subrange(0, s1), s.subrange(s1 + 1, e1)),
                                    (s.subrange(b2, s2), s.subrange(s2 + 1, e2)),
                                    (s.subrange(b3, s3), s.subrange(s3 + 1, e3)),
                                ],
                            )
                        } else {
                            None
                        },
                    },
                },
            },
        },
    }
}

fn scan_token(s: &[char], i: usize) -> (r: Option<(usize, usize)>)
    requires
        i <= s@.len(),
    ensures
        r is Some <==> token_at(s@, i as int) is Some,
        r matches Some((a, b)) ==> token_at(s@, i as int) == Some((a as int, b as int)) && a < b
            <= s@.len(),
{
    let slash = text::find_char(s, '/', i);
    if !(i < slash && slash < s.len()) {
        return None;
    }
    let end = httpu::scan(s, slash + 1, CharClass::VersionChar);
    if end > slash + 1 {
        Some((slash, end))
    } else {
        None
    }
}

fn scan_separator(s: &[char], j: usize) -> (r: Option<usize>)
    requires
        j <= s@.len(),
    ensures
        r == match separator_end(s@, j as int) {
            Some(w) => Some(w as usize),
            None => None::<usize>,
        },
        r matches Some(w) ==> w <= s@.len() && separator_end(s@, j as int) == Some(w as int),
        r is None <==> separator_end(s@, j as int) is None,
{
    let k = if j < s.len() && s[j] == ',' {
        j + 1
    } else {
        j
    };
    let w = httpu::scan(s, k, CharClass::Space);
    if w > k {
        if w < s.len() && s[w] == '/' && w - k >= 2 {
            Some(w - 1)
        } else {
            Some(w)
        }
    } else {
        None
    }
}

/// Reads the three product tokens of a `SERVER` value: platform, UPnP, product.
pub fn parse_server(value: &str) -> (r: Option<ProductVersions>)
    ensures
        r is Some <==> server_tokens(value@) is Some,
        r matches Some(v) ==> ({
            let t = server_tokens(value@)->Some_0;
            &&& v.platform.name@ == t[0].0 && v.platform.version@ == t[0].1
            &&& v.upnp.name@ == t[1].0 && v.upnp.version@ == t[1].1
            &&& v.product.name@ == t[2].0 && v.product.version@ == t[2].1
        }),
{
    let c = text::chars_of(value);
    let s = c.as_slice();
    let (s1, e1) = match scan_token(s, 0) {
        None => return None,
        Some(t) => t,
    };
    let b2 = match scan_separator(s, e1) {
        None => return None,
        Some(b) => b,
    };
    let (s2, e2) = match scan_token(s, b2) {
        None => return None,
        Some(t) => t,
    };
    let b3 = match scan_separator(s, e2) {
        None => return None,
        Some(b) => b,
    };
    let (s3, e3) = match scan_token(s, b3) {
        None => return None,
        Some(t) => t,
    };
    if e3 != s.len() {
        return None;
    }
    assert(s@ == value@);
    assert(server_tokens(value@) == Some(
        seq![
            (s@.subrange(0, s1 as int), s@.subrange(s1 + 1, e1 as int)),
            (s@.subrange(b2 as int, s2 as int), s@.subrange(s2 + 1, e2 as int)),
            (s@.subrange(b3 as int, s3 as int), s@.subrange(s3 + 1, e3 as int)),
        ],
    ));
    Some(ProductVersions {
        platform: ProductVersion { name: text::substring(s, 0, s1), version: text::substring(s, s1 + 1, e1) },
        upnp: ProductVersion { name: text::substring(s, b2, s2), version: text::substring(s, s2 + 1, e2) },
        product: ProductVersion { name: text::substring(s, b3, s3), version: text::substring(s, s3 + 1, e3) },
    })
}

} // verus!

verus! {

/// The bounds of the digits of `max-age \s* = \s* {digits}` when it starts at `i`.
pub open spec fn max_age_at(s: Seq<char>, i: int) -> Option<(int, int)> {
    let a = run_end(s, i + 7, CharClass::Space);
    let b = run_end(s, a + 1, CharClass::Space);
    let d = run_end(s, b, CharClass::Digit);
    if 0 <= i && i + 7 <= s.len() && s.subrange(i, i + 7) == "max-age"@ && a < s.len() && s[a]
        == '=' && d > b {
        Some((b, d))
    } else {
        None
    }
}

/// The leftmost `max-age` directive at or after `i`.
pub open spec fn max_age_from(s: Seq<char>, i: int) -> Option<(int, int)>
    decreases s.len() - i,
{
    if i < 0 || i >= s.len() {
        None
    } else if max_age_at(s, i) is Some {
        max_age_at(s, i)
    } else {
        max_age_from(s, i + 1)
    }
}

/// The digits of the leftmost `max-age` directive of a `CACHE-CONTROL` value.
pub open spec fn max_age_digits(s: Seq<char>) -> Option<Seq<char>> {
    match max_age_from(s, 0) {
        Some((b, d)) => Some(s.subrange(b, d)),
        None => None,
    }
}

fn scan_max_age_at(s: &[char], i: usize) -> (r: Option<(usize, usize)>)
    requires
        i <= s@.len(),
    ensures
        r is Some <==> max_age_at(s@, i as int) is Some,
        r matches Some((b, d)) ==> max_age_at(s@, i as int) == Some((b as int, d as int)) && b <= d
            <= s@.len(),
{
    proof { reveal_strlit("max-age"); }
    if s.len() - i < 7 {
        return None;
    }
    if !text::equals_str(text::slice_range(s, i, i + 7), "max-age") {
        return None;
    }
    let a = httpu::scan(s, i + 7, CharClass::Space);
    if !(a < s.len() && s[a] == '=') {
        return None;
    }
    let b = httpu::scan(s, a + 1, CharClass::Space);
    let d = httpu::scan(s, b, CharClass::Digit);
    if d > b {
        Some((b, d))
    } else {
        None
    }
}

/// Reads the number of seconds of the `max-age` directive of a `CACHE-CONTROL` value.
pub fn check_max_age(value: &str) -> (r: Result<u64, MessageFormatError>)
    ensures
        r is Ok <==> (max_age_digits(value@) is Some && text::parses_as_unsigned(
            max_age_digits(value@)->Some_0,
            u64::MAX as nat,
        )),
        r matches Ok(n) ==> n as nat == digits_value(max_age_digits(value@)->Some_0),
        r matches Err(e) ==> invalid_value(
            e,
            ValueSource::Header,
            "CACHE-CONTROL"@,
            match max_age_digits(value@) {
                Some(d) => d,
                None => value@,
            },
        ),
{
    let c = text::chars_of(value);
    let s = c.as_slice();
    let mut i: usize = 0;
    while i < s.len()
        invariant
            i <= s@.len(),
            s@ == value@,
            max_age_from(s@, 0) == max_age_from(s@, i as int),
        decreases s.len() - i,
    {
        match scan_max_age_at(s, i) {
            Some((b, d)) => {
                let digits = text::slice_range(s, b, d);
                proof {
                    assert forall|k: int| 0 <= k < digits@.len() implies is_digit(#[trigger] digits@[k]) by {
                        httpu::lemma_run_in_class(s@, b as int, CharClass::Digit, b + k);
                    }
                    assert(text::unsigned_digits(digits@) == digits@);
                }
                let t = text::string_from_chars(digits);
                return headers::check_parsed_value(t.as_str(), "CACHE-CONTROL", u64::MAX);
            },
            None => {},
        }
        i = i + 1;
    }
    Err(crate::error::invalid_header_value("CACHE-CONTROL", value))
}

} // verus!

verus! {

/// A device's answer to a search.
#[derive(Debug)]
pub struct Response {
    /// Seconds for which the answer stays valid (`CACHE-CONTROL: max-age`).
    pub max_age: u64,
    pub date: String,
    pub versions: ProductVersions,
    pub search_target: SearchTarget,
    pub service_name: String,
    pub location: String,
    pub boot_id: u64,
    pub config_id: Option<u64>,
    pub search_port: Option<u16>,
    /// The headers other than the seven that every answer must carry.
    pub other_headers: Headers,
}

/// The headers that every answer to a search must carry.
pub open spec fn required_names() -> Seq<Seq<char>> {
    seq![
        HTTP_HEADER_CACHE_CONTROL@,
        HTTP_HEADER_DATE@,
        HTTP_HEADER_EXT@,
        HTTP_HEADER_LOCATION@,
        HTTP_HEADER_SERVER@,
        HTTP_HEADER_ST@,
        HTTP_HEADER_USN@,
    ]
}

pub open spec fn is_required(k: Seq<char>) -> bool {
    required_names().contains(k)
}

/// The headers of `h` that are not required, in order.
pub open spec fn other_headers_of(h: HeaderSeq) -> HeaderSeq
    decreases h.len(),
{
    if h.len() == 0 {
        Seq::empty()
    } else {
        let rest = other_headers_of(h.drop_last());
        if is_required(h.last().0) {
            rest
        } else {
            headers::insert(rest, h.last().0, h.last().1)
        }
    }
}

/// The value of a header that is present.
pub open spec fn value_of(h: HeaderSeq, k: Seq<char>) -> Seq<char> {
    lookup(h, k)->Some_0
}

/// The number in an optional header, when it is there and reads as one no greater than `max`.
pub open spec fn optional_number(h: HeaderSeq, k: Seq<char>, max: nat) -> Option<nat> {
    match lookup(h, k) {
        Some(v) => if parses_as_unsigned(v, max) {
            Some(unsigned_value(v))
        } else {
            None
        },
        None => None,
    }
}

/// The text of `BOOTID.UPNP.ORG`, `0` when absent.
pub open spec fn boot_id_text(h: HeaderSeq) -> Seq<char> {
    match lookup(h, HTTP_HEADER_BOOTID@) {
        Some(v) => v,
        None => seq!['0'],
    }
}

/// Why an answer is refused.
pub enum AnswerFault {
    /// Required headers are missing; their names joined by `, `.
    Missing(Seq<char>),
    /// `EXT` holds a value.
    Ext(Seq<char>),
    /// `SERVER` is not three product tokens.
    Server(Seq<char>),
    /// `CACHE-CONTROL` has no usable `max-age`: the value, or the digits that do not fit.
    CacheControl(Seq<char>),
    /// A UPnP 2.0 answer whose `BOOTID.UPNP.ORG` is not a number.
    BootId(Seq<char>),
    /// `ST` is not a search target.
    Target(Seq<char>),
}

/// An answer as character sequences and numbers.
pub struct AnswerView {
    pub max_age: nat,
    pub date: Seq<char>,
    pub versions: Seq<(Seq<char>, Seq<char>)>,
    pub search_target: TargetView,
    pub service_name: Seq<char>,
    pub location: Seq<char>,
    pub boot_id: nat,
    pub config_id: Option<nat>,
    pub search_port: Option<nat>,
    pub other_headers: HeaderSeq,
}

/// What the headers of a response make of it: the checks in order (required headers, empty
/// `EXT`, `SERVER` tokens, `max-age`, the 2.0 boot id, the search target), then the answer.
pub open spec fn answer_of(h: HeaderSeq) -> Result<AnswerView, AnswerFault> {
    let missing = missing_names(h, required_names());
    let server = value_of(h, HTTP_HEADER_SERVER@);
    let cache = value_of(h, HTTP_HEADER_CACHE_CONTROL@);
    let st = not_empty_or(lookup(h, HTTP_HEADER_ST@), "undefined"@);
    if missing.len() > 0 {
        Err(AnswerFault::Missing(join(missing, seq![',', ' '])))
    } else if trim(value_of(h, HTTP_HEADER_EXT@)).len() > 0 {
        Err(AnswerFault::Ext(value_of(h, HTTP_HEADER_EXT@)))
    } else if server_tokens(server) is None {
        Err(AnswerFault::Server(server))
    } else if max_age_digits(cache) is None {
        Err(AnswerFault::CacheControl(cache))
    } else if !parses_as_unsigned(max_age_digits(cache)->Some_0, u64::MAX as nat) {
        Err(AnswerFault::CacheControl(max_age_digits(cache)->Some_0))
    } else {
        let tokens = server_tokens(server)->Some_0;
        let v2 = tokens[1].1 == SpecVersion::V20.text();
        if v2 && !parses_as_unsigned(boot_id_text(h), u64::MAX as nat) {
            Err(AnswerFault::BootId(boot_id_text(h)))
        } else if target_of(st) is None {
            Err(AnswerFault::Target(st))
        } else {
            Ok(
                AnswerView {
                    max_age: digits_value(max_age_digits(cache)->Some_0),
                    date: not_empty_or(lookup(h, HTTP_HEADER_DATE@), DEFAULT_DATE@),
                    versions: tokens,
                    search_target: target_of(st)->Some_0,
                    service_name: not_empty_or(lookup(h, HTTP_HEADER_USN@), "undefined"@),
                    location: not_empty_or(lookup(h, HTTP_HEADER_LOCATION@), DEFAULT_LOCATION@),
                    boot_id: if v2 {
                        unsigned_value(boot_id_text(h))
                    } else {
                        0
                    },
                    config_id: if v2 {
                        optional_number(h, HTTP_HEADER_CONFIGID@, u64::MAX as nat)
                    } else {
                        None
                    },
                    search_port: if v2 {
                        optional_number(h, HTTP_HEADER_SEARCH_PORT@, u16::MAX as nat)
                    } else {
                        None
                    },
                    other_headers: other_headers_of(h),
                },
            )
        }
    }
}

/// The error reported for a refused answer.
pub open spec fn answer_error(e: Error, f: AnswerFault) -> bool {
    match e {
        Error::MessageFormat(m) => match f {
            AnswerFault::Missing(n) => missing_value(m, ValueSource::Header, n),
            AnswerFault::Ext(v) => invalid_value(m, ValueSource::Header, HTTP_HEADER_EXT@, v),
            AnswerFault::Server(v) => invalid_value(m, ValueSource::Header, HTTP_HEADER_SERVER@, v),
            AnswerFault::CacheControl(v) => invalid_value(
                m,
                ValueSource::Header,
                HTTP_HEADER_CACHE_CONTROL@,
                v,
            ),
            AnswerFault::BootId(v) => invalid_value(m, ValueSource::Header, HTTP_HEADER_BOOTID@, v),
            AnswerFault::Target(v) => invalid_value(m, ValueSource::Field, "SearchTarget"@, v),
        },
        _ => false,
    }
}

pub open spec fn opt_nat_u64(o: Option<u64>) -> Option<nat> {
    match o {
        Some(v) => Some(v as nat),
        None => None,
    }
}

pub open spec fn opt_nat_u16(o: Option<u16>) -> Option<nat> {
    match o {
        Some(v) => Some(v as nat),
        None => None,
    }
}

impl Response {
    /// `self` is the answer that `v` describes.
    pub open spec fn matches_view(&self, v: AnswerView) -> bool {
        &&& self.max_age as nat == v.max_age
        &&& self.date@ == v.date
        &&& v.versions.len() == 3
        &&& self.versions.platform.name@ == v.versions[0].0
        &&& self.versions.platform.version@ == v.versions[0].1
        &&& self.versions.upnp.name@ == v.versions[1].0
        &&& self.versions.upnp.version@ == v.versions[1].1
        &&& self.versions.product.name@ == v.versions[2].0
        &&& self.versions.product.version@ == v.versions[2].1
        &&& self.search_target@ == v.search_target
        &&& self.service_name@ == v.service_name
        &&& self.location@ == v.location
        &&& self.boot_id as nat == v.boot_id
        &&& opt_nat_u64(self.config_id) == v.config_id
        &&& opt_nat_u16(self.search_port) == v.search_port
        &&& self.other_headers@ == v.other_headers
        &&& self.other_headers.wf()
    }
}

proof fn lemma_missing_none(h: HeaderSeq, req: Seq<Seq<char>>)
    requires
        missing_names(h, req).len() == 0,
    ensures
        forall|i: int| 0 <= i < req.len() ==> has_key(h, #[trigger] req[i]),
    decreases req.len(),
{
    if req.len() > 0 {
        lemma_missing_none(h, req.drop_last());
        assert forall|i: int| 0 <= i < req.len() implies has_key(h, #[trigger] req[i]) by {
            if i < req.len() - 1 {
                assert(req[i] == req.drop_last()[i]);
            }
        }
    }
}

/// Whether a header name is one of the required seven.
fn is_required_name(k: &String) -> (r: bool)
    ensures
        r == is_required(k@),
{
    let names = [
        HTTP_HEADER_CACHE_CONTROL,
        HTTP_HEADER_DATE,
        HTTP_HEADER_EXT,
        HTTP_HEADER_LOCATION,
        HTTP_HEADER_SERVER,
        HTTP_HEADER_ST,
        HTTP_HEADER_USN,
    ];
    let kc = text::chars_of(k.as_str());
    let mut i: usize = 0;
    while i < 7
        invariant
            i <= 7,
            kc@ == k@,
            names@.map_values(|s: &str| s@) == required_names(),
            forall|j: int| 0 <= j < i ==> required_names()[j] != k@,
        decreases 7 - i,
    {
        assert(names@.map_values(|s: &str| s@)[i as int] == names@[i as int]@);
        if text::equals_str(kc.as_slice(), names[i]) {
            assert(required_names()[i as int] == k@);
            return true;
        }
        i = i + 1;
    }
    assert forall|j: int| 0 <= j < required_names().len() implies required_names()[j] != k@ by {}
    false
}

fn optional_value(v: Option<&String>, max: u64) -> (r: Option<u64>)
    ensures
        r is Some <==> (v matches Some(s) && parses_as_unsigned(s@, max as nat)),
        r matches Some(n) ==> v matches Some(s) && n as nat == unsigned_value(s@),
{
    match v {
        Some(s) => {
            let c = text::chars_of(s.as_str());
            text::parse_unsigned(c.as_slice(), max)
        },
        None => None,
    }
}

} // verus!

verus! {

impl Response {
    /// Checks a response to a search and reads the answer from its headers.
    pub fn from_raw(raw: &httpu::Response) -> (r: Result<Response, Error>)
        requires
            raw.headers.wf(),
        ensures
            r is Ok <==> answer_of(raw.headers@) is Ok,
            r matches Ok(a) ==> a.matches_view(answer_of(raw.headers@)->Ok_0),
            r matches Err(e) ==> answer_error(e, answer_of(raw.headers@)->Err_0),
    {
        let h = &raw.headers;
        let ghost hv = h@;
        let required = [
            HTTP_HEADER_CACHE_CONTROL,
            HTTP_HEADER_DATE,
            HTTP_HEADER_EXT,
            HTTP_HEADER_LOCATION,
            HTTP_HEADER_SERVER,
            HTTP_HEADER_ST,
            HTTP_HEADER_USN,
        ];
        assert(headers::str_views(required@) =~= required_names());
        match headers::check_required(h, &required) {
            Err(e) => {
                return Err(Error::MessageFormat(e));
            },
            Ok(()) => {},
        }
        proof {
            lemma_missing_none(hv, required_names());
            assert(has_key(hv, required_names()[2]));
            assert(has_key(hv, required_names()[4]));
            assert(has_key(hv, required_names()[0]));
        }
        let ext = match h.get(HTTP_HEADER_EXT) {
            Some(v) => v,
            None => {
                return Err(Error::MessageFormat(crate::error::missing_required_header(HTTP_HEADER_EXT)));
            },
        };
        match headers::check_empty(ext.as_str(), HTTP_HEADER_EXT) {
            Err(e) => {
                return Err(Error::MessageFormat(e));
            },
            Ok(()) => {},
        }
        let server = match h.get(HTTP_HEADER_SERVER) {
            Some(v) => v,
            None => {
                return Err(Error::MessageFormat(crate::error::missing_required_header(HTTP_HEADER_SERVER)));
            },
        };
        let versions = match parse_server(server.as_str()) {
            Some(v) => v,
            None => {
                return Err(
                    Error::MessageFormat(
                        crate::error::invalid_header_value(HTTP_HEADER_SERVER, server.as_str()),
                    ),
                );
            },
        };
        let cache = match h.get(HTTP_HEADER_CACHE_CONTROL) {
            Some(v) => v,
            None => {
                return Err(Error::MessageFormat(crate::error::missing_required_header(HTTP_HEADER_CACHE_CONTROL)));
            },
        };
        let max_age = match check_max_age(cache.as_str()) {
            Ok(n) => n,
            Err(e) => {
                return Err(Error::MessageFormat(e));
            },
        };
        let v2_text = SpecVersion::V20.to_string();
        let is_v2 = versions.upnp.version == v2_text;
        let mut boot_id: u64 = 0;
        let mut config_id: Option<u64> = None;
        let mut search_port: Option<u16> = None;
        if is_v2 {
            let boot_text = match h.get(HTTP_HEADER_BOOTID) {
                Some(v) => v.clone(),
                None => "0".to_string(),
            };
            proof { reveal_strlit("0"); }
            assert(boot_text@ == boot_id_text(hv));
            boot_id = match headers::check_parsed_value(boot_text.as_str(), HTTP_HEADER_BOOTID, u64::MAX) {
                Ok(n) => n,
                Err(e) => {
                    return Err(Error::MessageFormat(e));
                },
            };
            config_id = optional_value(h.get(HTTP_HEADER_CONFIGID), u64::MAX);
            search_port = match optional_value(h.get(HTTP_HEADER_SEARCH_PORT), 65535) {
                Some(n) => Some(n as u16),
                None => None,
            };
        }
        let st = headers::check_not_empty(h.get(HTTP_HEADER_ST), "undefined");
        let search_target = match SearchTarget::from_str(st.as_str()) {
            Ok(t) => t,
            Err(_) => {
                return Err(Error::MessageFormat(
                    crate::error::invalid_field_value("SearchTarget", st.as_str()),
                ));
            },
        };
        let date = headers::check_not_empty(h.get(HTTP_HEADER_DATE), DEFAULT_DATE);
        let location = headers::check_not_empty(h.get(HTTP_HEADER_LOCATION), DEFAULT_LOCATION);
        let service_name = headers::check_not_empty(h.get(HTTP_HEADER_USN), "undefined");
        let mut other_headers = Headers::new();
        let mut i: usize = 0;
        while i < h.entries.len()
            invariant
                i <= hv.len(),
                hv == h@,
                other_headers.wf(),
                other_headers@ == other_headers_of(hv.subrange(0, i as int)),
            decreases h.entries.len() - i,
        {
            let e = &h.entries[i];
            assert(hv[i as int] == headers::entry_view(h.entries@[i as int]));
            assert(hv.subrange(0, i + 1).drop_last() =~= hv.subrange(0, i as int));
            if !is_required_name(&e.0) {
                other_headers.insert(e.0.clone(), e.1.clone());
            }
            i = i + 1;
        }
        assert(hv.subrange(0, i as int) =~= hv);
        Ok(Response {
            max_age,
            date,
            versions,
            search_target,
            service_name,
            location,
            boot_id,
            config_id,
            search_port,
            other_headers,
        })
    }
}

} // verus!

verus! {

/// The options of a search.
#[derive(Debug)]
pub struct Options {
    /// The specification version that messages follow. Default: 1.0.
    pub spec_version: SpecVersion,
    /// What to search for. Default: root devices.
    pub search_target: SearchTarget,
    /// The interface to bind to; the wildcard address when `None`.
    pub network_interface: Option<String>,
    /// The IP version to use; IPv4 when `None`.
    pub network_version: Option<IP>,
    /// The IP packet TTL: 4 for 1.0, else 2.
    pub packet_ttl: u32,
    /// The longest time, in seconds, that devices may wait before answering, and the receive
    /// timeout; between 1 and 120. Default: 2.
    pub max_wait_time: u8,
    /// The product token of the user agent; a default one when `None`.
    pub product_and_version: Option<ProductVersion>,
    /// The control point; required by 2.0.
    pub control_point: Option<ControlPoint>,
    /// The platform token of the user agent, as a host probe reports it.
    pub platform: ProductVersion,
}

/// The platform token used until a host probe supplies one.
pub const DEFAULT_PLATFORM_NAME: &'static str = "unknown";
pub const DEFAULT_PLATFORM_VERSION: &'static str = "0";

/// A product token acceptable from 1.1 on: a name without `/`, a version of digits and dots.
pub open spec fn product_token_ok(p: ProductVersion) -> bool {
    &&& forall|i: int| 0 <= i < p.name@.len() ==> p.name@[i] != '/'
    &&& p.version@.len() > 0
    &&& forall|i: int| 0 <= i < p.version@.len() ==> #[trigger] is_digit(p.version@[i]) || p.version@[i] == '.'
}

/// The product text as the user agent carries it.
pub open spec fn product_text(p: Option<ProductVersion>) -> Seq<char> {
    match p {
        Some(p) => p.text(),
        None => token(DEFAULT_PRODUCT_NAME@, DEFAULT_PRODUCT_VERSION@),
    }
}

/// The user agent of a search.
pub open spec fn options_user_agent(o: Options) -> Seq<char> {
    user_agent(o.spec_version, product_text(o.product_and_version), o.platform.text())
}

/// The first rule that the options break, if any.
pub enum OptionsFault {
    MaxWait,
    UserAgent,
    MissingControlPoint,
    ControlPointName,
}

pub open spec fn options_fault(o: Options) -> Option<OptionsFault> {
    if o.max_wait_time < 1 || o.max_wait_time > 120 {
        Some(OptionsFault::MaxWait)
    } else if o.spec_version.spec_at_least(SpecVersion::V11) && o.product_and_version is Some
        && !product_token_ok(o.product_and_version->Some_0) {
        Some(OptionsFault::UserAgent)
    } else if o.spec_version.spec_at_least(SpecVersion::V20) && o.control_point is None {
        Some(OptionsFault::MissingControlPoint)
    } else if o.spec_version.spec_at_least(SpecVersion::V20) && o.control_point->Some_0.friendly_name@.len() == 0 {
        Some(OptionsFault::ControlPointName)
    } else {
        None
    }
}

/// The error reported for a broken rule.
pub open spec fn options_error(e: Error, o: Options, f: OptionsFault) -> bool {
    match e {
        Error::MessageFormat(m) => match f {
            OptionsFault::MaxWait => invalid_value(
                m,
                ValueSource::Field,
                "max_wait_time"@,
                text::decimal(o.max_wait_time as nat),
            ),
            OptionsFault::UserAgent => invalid_value(
                m,
                ValueSource::Field,
                "UserAgent"@,
                o.product_and_version->Some_0.text(),
            ),
            OptionsFault::MissingControlPoint => missing_value(m, ValueSource::Field, "ControlPoint"@),
            OptionsFault::ControlPointName => invalid_value(
                m,
                ValueSource::Field,
                "ControlPoint"@,
                o.control_point->Some_0.friendly_name@,
            ),
        },
        _ => false,
    }
}

fn version_chars_ok(p: &ProductVersion) -> (r: bool)
    ensures
        r == product_token_ok(*p),
{
    let name = text::chars_of(p.name.as_str());
    let version = text::chars_of(p.version.as_str());
    let slash = text::find_char(name.as_slice(), '/', 0);
    if slash < name.len() {
        assert(name@[slash as int] == '/') by {
            lemma_find_from_hit(name@, '/', 0);
        }
        return false;
    }
    proof { lemma_find_from_miss(name@, '/', 0); }
    if version.len() == 0 {
        return false;
    }
    let end = httpu::scan(version.as_slice(), 0, CharClass::VersionChar);
    if end < version.len() {
        proof { httpu::lemma_run_end_stop(version@, 0, CharClass::VersionChar); }
        return false;
    }
    proof {
        assert forall|i: int| 0 <= i < version@.len() implies #[trigger] is_digit(version@[i]) || version@[i] == '.' by {
            httpu::lemma_run_in_class(version@, 0, CharClass::VersionChar, i);
        }
    }
    true
}

proof fn lemma_find_from_hit(s: Seq<char>, c: char, i: int)
    requires
        0 <= i,
        text::find_from(s, c, i) < s.len(),
    ensures
        s[text::find_from(s, c, i)] == c,
    decreases s.len() - i,
{
    if i < s.len() && s[i] != c {
        lemma_find_from_hit(s, c, i + 1);
    }
}

proof fn lemma_find_from_miss(s: Seq<char>, c: char, i: int)
    requires
        0 <= i,
        text::find_from(s, c, i) >= s.len(),
    ensures
        forall|k: int| i <= k < s.len() ==> s[k] != c,
    decreases s.len() - i,
{
    if i < s.len() {
        lemma_find_from_miss(s, c, i + 1);
    }
}

impl Options {
    /// The defaults for a specification version.
    pub fn default_for(spec_version: SpecVersion) -> (r: Self)
        ensures
            r.spec_version == spec_version,
            r.search_target@ == TargetView::RootDevice,
            r.network_interface is None,
            r.network_version is None,
            r.packet_ttl == if spec_version == SpecVersion::V10 { 4u32 } else { 2u32 },
            r.max_wait_time == 2,
            r.product_and_version is None,
            r.control_point is None,
            r.platform.name@ == DEFAULT_PLATFORM_NAME@,
            r.platform.version@ == DEFAULT_PLATFORM_VERSION@,
    {
        Options {
            spec_version,
            search_target: SearchTarget::RootDevice,
            network_interface: None,
            network_version: None,
            packet_ttl: match spec_version {
                SpecVersion::V10 => 4,
                _ => 2,
            },
            max_wait_time: 2,
            product_and_version: None,
            control_point: None,
            platform: ProductVersion::for_platform(DEFAULT_PLATFORM_NAME, DEFAULT_PLATFORM_VERSION),
        }
    }

    /// The 2.0 defaults with the control point set.
    pub fn for_control_point(control_point: ControlPoint) -> (r: Self)
        ensures
            r.spec_version == SpecVersion::V20,
            r.search_target@ == TargetView::RootDevice,
            r.packet_ttl == 2,
            r.max_wait_time == 2,
            r.product_and_version is None,
            r.control_point == Some(control_point),
            r.network_interface is None,
            r.network_version is None,
            r.platform.name@ == DEFAULT_PLATFORM_NAME@,
            r.platform.version@ == DEFAULT_PLATFORM_VERSION@,
    {
        let mut new = Self::default_for(SpecVersion::V20);
        new.control_point = Some(control_point);
        new
    }

    /// Checks the options: the wait time is between 1 and 120; from 1.1 a given product token
    /// has a name without `/` and a version of digits and dots; 2.0 needs a control point with
    /// a friendly name.
    pub fn validate(&self) -> (r: Result<(), Error>)
        ensures
            r is Ok <==> options_fault(*self) is None,
            r matches Err(e) ==> options_error(e, *self, options_fault(*self)->Some_0),
    {
        if self.max_wait_time < 1 || self.max_wait_time > 120 {
            let v = text::decimal_string(self.max_wait_time as u64);
            return Err(Error::MessageFormat(crate::error::invalid_field_value("max_wait_time", v.as_str())));
        }
        if self.spec_version.at_least(SpecVersion::V11) {
            if let Some(user_agent) = &self.product_and_version {
                if !version_chars_ok(user_agent) {
                    let v = user_agent.to_string();
                    return Err(Error::MessageFormat(crate::error::invalid_field_value("UserAgent", v.as_str())));
                }
            }
        }
        if self.spec_version.at_least(SpecVersion::V20) {
            match &self.control_point {
                None => {
                    return Err(Error::MessageFormat(crate::error::missing_required_field("ControlPoint")));
                },
                Some(control_point) => {
                    if control_point.friendly_name.as_str().is_empty() {
                        return Err(Error::MessageFormat(crate::error::invalid_field_value(
                            "ControlPoint",
                            control_point.friendly_name.as_str(),
                        )));
                    }
                },
            }
        }
        Ok(())
    }

    /// The socket options of the search: its interface, version and TTL, and its wait time as
    /// the receive timeout.
    pub fn multicast_options(&self) -> (r: httpu::Options)
        ensures
            r.network_interface == self.network_interface,
            r.network_version == self.network_version,
            r.packet_ttl == self.packet_ttl,
            r.recv_timeout == self.max_wait_time as u64,
            r.local_port == 0,
            !r.local_network_only,
            !r.loop_back_also,
    {
        let mut o = httpu::Options::new();
        o.network_interface = match &self.network_interface {
            Some(s) => Some(s.clone()),
            None => None,
        };
        o.network_version = self.network_version;
        o.packet_ttl = self.packet_ttl;
        o.recv_timeout = self.max_wait_time as u64;
        o
    }
}

} // verus!

verus! {

/// The headers of a multicast search: `HOST`, `MAN`, `MX`, `ST`; from 1.1 `USER-AGENT`; in
/// 2.0 the control point's `CPFN.UPNP.ORG`, and `CPUUID.UPNP.ORG` and `TCPPORT.UPNP.ORG` when
/// it has them.
pub open spec fn search_headers(o: Options) -> HeaderSeq {
    let h0 = insert(
        insert(
            insert(
                insert(Seq::empty(), HTTP_HEADER_HOST@, MULTICAST_ADDRESS@),
                HTTP_HEADER_MAN@,
                HTTP_EXTENSION@,
            ),
            HTTP_HEADER_MX@,
            text::decimal(o.max_wait_time as nat),
        ),
        HTTP_HEADER_ST@,
        render_target(o.search_target@),
    );
    let h1 = if o.spec_version.spec_at_least(SpecVersion::V11) {
        insert(h0, HTTP_HEADER_USER_AGENT@, options_user_agent(o))
    } else {
        h0
    };
    if o.spec_version.spec_at_least(SpecVersion::V20) {
        let cp = o.control_point->Some_0;
        let h2 = insert(h1, HTTP_HEADER_CP_FN@, cp.friendly_name@);
        let h3 = match cp.uuid {
            Some(u) => insert(h2, HTTP_HEADER_CP_UUID@, u@),
            None => h2,
        };
        match cp.port {
            Some(p) => insert(h3, HTTP_HEADER_TCP_PORT@, text::decimal(p as nat)),
            None => h3,
        }
    } else {
        h1
    }
}

/// The headers of a unicast search: `HOST`, `MAN`, `ST` and `USER-AGENT`.
pub open spec fn unicast_search_headers(o: Options) -> HeaderSeq {
    insert(
        insert(
            insert(
                insert(Seq::empty(), HTTP_HEADER_HOST@, MULTICAST_ADDRESS@),
                HTTP_HEADER_MAN@,
                HTTP_EXTENSION@,
            ),
            HTTP_HEADER_ST@,
            render_target(o.search_target@),
        ),
        HTTP_HEADER_USER_AGENT@,
        options_user_agent(o),
    )
}

/// Validates the options and builds the `M-SEARCH` request of a multicast search.
pub fn search_request(options: &Options) -> (r: Result<Request, Error>)
    ensures
        r is Ok <==> options_fault(*options) is None,
        r matches Err(e) ==> options_error(e, *options, options_fault(*options)->Some_0),
        r matches Ok(q) ==> q.message@ == HTTP_METHOD_SEARCH@ && q.resource is None
            && q.headers.wf() && q.headers@ == search_headers(*options),
{
    match options.validate() {
        Err(e) => {
            return Err(e);
        },
        Ok(()) => {},
    }
    let mut builder = RequestBuilder::new(HTTP_METHOD_SEARCH);
    builder.add_header(HTTP_HEADER_HOST, MULTICAST_ADDRESS);
    builder.add_header(HTTP_HEADER_MAN, HTTP_EXTENSION);
    let mx = text::decimal_string(options.max_wait_time as u64);
    builder.add_header(HTTP_HEADER_MX, mx.as_str());
    let st = options.search_target.to_string();
    builder.add_header(HTTP_HEADER_ST, st.as_str());
    if options.spec_version.at_least(SpecVersion::V11) {
        let ua = user_agent_string(
            options.spec_version,
            &options.product_and_version,
            &options.platform,
        );
        builder.add_header(HTTP_HEADER_USER_AGENT, ua.as_str());
    }
    if options.spec_version.at_least(SpecVersion::V20) {
        match &options.control_point {
            Some(cp) => {
                builder.add_header(HTTP_HEADER_CP_FN, cp.friendly_name.as_str());
                if let Some(uuid) = &cp.uuid {
                    builder.add_header(HTTP_HEADER_CP_UUID, uuid.as_str());
                }
                if let Some(port) = cp.port {
                    let p = text::decimal_string(port as u64);
                    builder.add_header(HTTP_HEADER_TCP_PORT, p.as_str());
                }
            },
            None => {},
        }
    }
    Ok(builder.build())
}

/// Validates the options and builds the `M-SEARCH` request of a unicast search, which UPnP 1.0
/// does not have.
pub fn unicast_search_request(options: &Options) -> (r: Result<Request, Error>)
    ensures
        r is Ok <==> options_fault(*options) is None && options.spec_version.spec_at_least(
            SpecVersion::V11,
        ),
        r matches Err(e) ==> match options_fault(*options) {
            Some(f) => options_error(e, *options, f),
            None => e == (Error::UnsupportedVersion { version: options.spec_version }),
        },
        r matches Ok(q) ==> q.message@ == HTTP_METHOD_SEARCH@ && q.resource is None
            && q.headers.wf() && q.headers@ == unicast_search_headers(*options),
{
    match options.validate() {
        Err(e) => {
            return Err(e);
        },
        Ok(()) => {},
    }
    if !options.spec_version.at_least(SpecVersion::V11) {
        return Err(crate::error::unsupported_version(options.spec_version));
    }
    let mut builder = RequestBuilder::new(HTTP_METHOD_SEARCH);
    builder.add_header(HTTP_HEADER_HOST, MULTICAST_ADDRESS);
    builder.add_header(HTTP_HEADER_MAN, HTTP_EXTENSION);
    let st = options.search_target.to_string();
    builder.add_header(HTTP_HEADER_ST, st.as_str());
    let ua = user_agent_string(options.spec_version, &options.product_and_version, &options.platform);
    builder.add_header(HTTP_HEADER_USER_AGENT, ua.as_str());
    Ok(builder.build())
}

/// The answers among the responses' headers, in order; the responses refused are dropped.
pub open spec fn answers_of(hs: Seq<HeaderSeq>) -> Seq<AnswerView>
    decreases hs.len(),
{
    if hs.len() == 0 {
        Seq::empty()
    } else {
        let rest = answers_of(hs.drop_last());
        match answer_of(hs.last()) {
            Ok(a) => rest.push(a),
            Err(_) => rest,
        }
    }
}

pub open spec fn raw_headers(rs: Seq<httpu::Response>) -> Seq<HeaderSeq> {
    rs.map_values(|r: httpu::Response| r.headers@)
}

/// Reads the answers of the responses to a search; a response that is refused is dropped
/// without affecting the others.
pub fn collect_answers(raw: &Vec<httpu::Response>) -> (r: Vec<Response>)
    requires
        forall|i: int| 0 <= i < raw@.len() ==> (#[trigger] raw@[i]).headers.wf(),
    ensures
        r@.len() == answers_of(raw_headers(raw@)).len(),
        forall|i: int| 0 <= i < r@.len() ==> (#[trigger] r@[i]).matches_view(
            answers_of(raw_headers(raw@))[i],
        ),
{
    let ghost hs = raw_headers(raw@);
    let mut out: Vec<Response> = Vec::new();
    let mut i: usize = 0;
    while i < raw.len()
        invariant
            i <= raw@.len(),
            hs == raw_headers(raw@),
            forall|k: int| 0 <= k < raw@.len() ==> (#[trigger] raw@[k]).headers.wf(),
            out@.len() == answers_of(hs.subrange(0, i as int)).len(),
            forall|k: int| 0 <= k < out@.len() ==> (#[trigger] out@[k]).matches_view(
                answers_of(hs.subrange(0, i as int))[k],
            ),
        decreases raw.len() - i,
    {
        let ghost before = out@;
        let ghost s = hs.subrange(0, i + 1);
        assert(s.drop_last() =~= hs.subrange(0, i as int));
        assert(s.last() == raw@[i as int].headers@);
        match Response::from_raw(&raw[i]) {
            Ok(a) => {
                out.push(a);
                assert forall|k: int| 0 <= k < out@.len() implies (#[trigger] out@[k]).matches_view(
                    answers_of(s)[k],
                ) by {
                    if k < before.len() {
                        assert(out@[k] == before[k]);
                    }
                }
            },
            Err(_) => {},
        }
        i = i + 1;
    }
    assert(hs.subrange(0, i as int) =~= hs);
    out
}

} // verus!

verus! {

/// A cached answer and the time, in seconds, at which it expires.
#[derive(Debug)]
pub struct CachedResponse {
    pub response: Response,
    pub expiration: u64,
}

/// The answers of a search, kept until they expire and refreshed by further searches; no two
/// share a service name.
#[derive(Debug)]
pub struct ResponseCache {
    pub options: Options,
    /// The shortest time, in seconds, between two refreshes.
    pub minimum_refresh: u64,
    /// When the cache was last filled, in seconds.
    pub last_updated: u64,
    pub responses: Vec<CachedResponse>,
}

/// A cache entry as its service name, its expiration, and the answer it holds.
pub type EntryView = (Seq<char>, nat, Response);

pub open spec fn entries_view(v: Seq<CachedResponse>) -> Seq<EntryView> {
    v.map_values(|c: CachedResponse| (c.response.service_name@, c.expiration as nat, c.response))
}

/// When an answer of `max_age` seconds received at `now` expires (at the latest representable
/// time when the sum does not fit).
pub open spec fn expiry(now: nat, max_age: nat) -> nat {
    if now + max_age > u64::MAX {
        u64::MAX as nat
    } else {
        now + max_age
    }
}

pub open spec fn unique_names(s: Seq<EntryView>) -> bool {
    forall|i: int, j: int| 0 <= i < j < s.len() ==> (#[trigger] s[i]).0 != (#[trigger] s[j]).0
}

pub open spec fn has_name(s: Seq<EntryView>, n: Seq<char>) -> bool {
    exists|i: int| 0 <= i < s.len() && (#[trigger] s[i]).0 == n
}

pub open spec fn name_index(s: Seq<EntryView>, n: Seq<char>) -> int {
    choose|i: int| 0 <= i < s.len() && (#[trigger] s[i]).0 == n
}

/// `s` with entry `e` added: it replaces the entry of the same name when that one expires no
/// later, is ignored when that one expires later, and goes last when the name is new.
pub open spec fn merge_entry(s: Seq<EntryView>, e: EntryView) -> Seq<EntryView> {
    if has_name(s, e.0) {
        if s[name_index(s, e.0)].1 <= e.1 {
            s.update(name_index(s, e.0), e)
        } else {
            s
        }
    } else {
        s.push(e)
    }
}

/// `s` with the entries of `es` merged one after another.
pub open spec fn merge_entries(s: Seq<EntryView>, es: Seq<EntryView>) -> Seq<EntryView>
    decreases es.len(),
{
    if es.len() == 0 {
        s
    } else {
        merge_entry(merge_entries(s, es.drop_last()), es.last())
    }
}

/// The entries of `s` that have not expired at `now`.
pub open spec fn unexpired(s: Seq<EntryView>, now: nat) -> Seq<EntryView>
    decreases s.len(),
{
    if s.len() == 0 {
        s
    } else {
        let rest = unexpired(s.drop_last(), now);
        if s.last().1 < now {
            rest
        } else {
            rest.push(s.last())
        }
    }
}

/// The entries that answers received at `now` make.
pub open spec fn fresh_entries(rs: Seq<Response>, now: nat) -> Seq<EntryView> {
    rs.map_values(|r: Response| (r.service_name@, expiry(now, r.max_age as nat), r))
}

proof fn lemma_merge_unique(s: Seq<EntryView>, e: EntryView)
    requires
        unique_names(s),
    ensures
        unique_names(merge_entry(s, e)),
{
    if has_name(s, e.0) {
        let i = name_index(s, e.0);
        assert(s[i].0 == e.0);
    }
}

/// Each entry is named by the service name of the answer it holds.
pub open spec fn consistent(s: Seq<EntryView>) -> bool {
    forall|i: int| 0 <= i < s.len() ==> (#[trigger] s[i]).0 == s[i].2.service_name@
}

proof fn lemma_unexpired_unique(s: Seq<EntryView>, now: nat)
    requires
        unique_names(s),
        consistent(s),
    ensures
        unique_names(unexpired(s, now)),
        consistent(unexpired(s, now)),
        forall|i: int| 0 <= i < unexpired(s, now).len() ==> has_name(s, #[trigger] unexpired(s, now)[i].0),
    decreases s.len(),
{
    if s.len() > 0 {
        let d = s.drop_last();
        assert(unique_names(d)) by {
            assert forall|i: int, j: int| 0 <= i < j < d.len() implies (#[trigger] d[i]).0 != (#[trigger] d[j]).0 by {
                assert(d[i] == s[i] && d[j] == s[j]);
            }
        }
        assert(consistent(d)) by {
            assert forall|i: int| 0 <= i < d.len() implies (#[trigger] d[i]).0 == d[i].2.service_name@ by {
                assert(d[i] == s[i]);
            }
        }
        lemma_unexpired_unique(d, now);
        let r = unexpired(d, now);
        assert forall|i: int| 0 <= i < r.len() implies has_name(s, #[trigger] r[i].0) by {
            let k = choose|k: int| 0 <= k < d.len() && (#[trigger] d[k]).0 == r[i].0;
            assert(s[k] == d[k]);
        }
        if s.last().1 >= now {
            assert forall|i: int| 0 <= i < r.len() implies (#[trigger] r[i]).0 != s.last().0 by {
                let k = choose|k: int| 0 <= k < d.len() && (#[trigger] d[k]).0 == r[i].0;
                assert(s[k] == d[k]);
                assert(s[k].0 != s[s.len() - 1].0);
            }
            let t = r.push(s.last());
            assert(t[t.len() - 1] == s[s.len() - 1]);
        }
    }
}

impl ResponseCache {
    pub open spec fn wf(&self) -> bool {
        unique_names(entries_view(self.responses@))
    }

    /// Merges one answer received at `now`.
    fn merge(&mut self, response: Response, now: u64)
        requires
            old(self).wf(),
        ensures
            final(self).wf(),
            entries_view(final(self).responses@) == merge_entry(
                entries_view(old(self).responses@),
                (response.service_name@, expiry(now as nat, response.max_age as nat), response),
            ),
            final(self).options == old(self).options,
            final(self).last_updated == old(self).last_updated,
            final(self).minimum_refresh == old(self).minimum_refresh,
    {
        let ghost s = entries_view(self.responses@);
        let expiration: u64 = if response.max_age > u64::MAX - now {
            u64::MAX
        } else {
            now + response.max_age
        };
        let ghost e = (response.service_name@, expiration as nat, response);
        assert(expiration as nat == expiry(now as nat, response.max_age as nat));
        proof { lemma_merge_unique(s, e); }
        let mut i: usize = 0;
        while i < self.responses.len()
            invariant
                i <= self.responses@.len(),
                s == entries_view(self.responses@),
                e == (response.service_name@, expiration as nat, response),
                expiration as nat == expiry(now as nat, response.max_age as nat),
                unique_names(s),
                forall|j: int| 0 <= j < i ==> (#[trigger] s[j]).0 != e.0,
                self.responses@ == old(self).responses@,
                self.options == old(self).options,
                self.last_updated == old(self).last_updated,
                self.minimum_refresh == old(self).minimum_refresh,
            decreases self.responses.len() - i,
        {
            assert(s[i as int].0 == self.responses@[i as int].response.service_name@);
            if self.responses[i].response.service_name == response.service_name {
                assert(has_name(s, e.0));
                assert(name_index(s, e.0) == i as int);
                assert(s[i as int].1 == self.responses@[i as int].expiration as nat);
                if self.responses[i].expiration <= expiration {
                    let c = CachedResponse { response, expiration };
                    assert((c.response.service_name@, c.expiration as nat, c.response) == e);
                    let ghost vbefore = self.responses@;
                    self.responses.set(i, c);
                    assert(self.responses@ == vbefore.update(i as int, c));
                    assert(entries_view(self.responses@) =~= s.update(i as int, e));
                } else {
                    assert(merge_entry(s, e) == s);
                }
                return;
            }
            i = i + 1;
        }
        self.responses.push(CachedResponse { response, expiration });
        assert(entries_view(self.responses@) =~= merge_entry(s, e));
    }

    /// Merges the answers received at `now`, in order.
    fn merge_all(&mut self, responses: Vec<Response>, now: u64)
        requires
            old(self).wf(),
        ensures
            final(self).wf(),
            entries_view(final(self).responses@) == merge_entries(
                entries_view(old(self).responses@),
                fresh_entries(responses@, now as nat),
            ),
            final(self).options == old(self).options,
            final(self).last_updated == old(self).last_updated,
            final(self).minimum_refresh == old(self).minimum_refresh,
    {
        let ghost es = fresh_entries(responses@, now as nat);
        let ghost start = entries_view(self.responses@);
        let mut rest = responses;
        let ghost all = rest@;
        // Answers are taken from the back and merged in their original order afterwards.
        let mut taken: Vec<Response> = Vec::new();
        while rest.len() > 0
            invariant
                rest@ + taken@.reverse() == all,
            decreases rest@.len(),
        {
            let r = rest.pop().unwrap();
            taken.push(r);
            assert(rest@ + taken@.reverse() =~= all);
        }
        assert(taken@.reverse() =~= all);
        let mut k: usize = 0;
        let m = taken.len();
        while taken.len() > 0
            invariant
                self.wf(),
                k + taken@.len() == m,
                m == all.len(),
                taken@.reverse() == all.subrange(k as int, m as int),
                es == fresh_entries(all, now as nat),
                entries_view(self.responses@) == merge_entries(start, es.subrange(0, k as int)),
                self.options == old(self).options,
                self.last_updated == old(self).last_updated,
                self.minimum_refresh == old(self).minimum_refresh,
            decreases taken@.len(),
        {
            let ghost before = taken@;
            let r = taken.pop().unwrap();
            assert(r == all[k as int]) by {
                assert(before.reverse()[0] == before[before.len() - 1]);
            }
            assert(taken@.reverse() =~= all.subrange(k + 1, m as int)) by {
                assert forall|j: int| 0 <= j < taken@.len() implies taken@.reverse()[j] == all.subrange(k + 1, m as int)[j] by {
                    assert(taken@.reverse()[j] == before.reverse()[j + 1]);
                }
            }
            assert(es.subrange(0, k + 1).drop_last() =~= es.subrange(0, k as int));
            self.merge(r, now);
            k = k + 1;
        }
        assert(es.subrange(0, k as int) =~= es);
    }

    /// A cache of the answers of a search received at `now`.
    pub fn new(options: Options, responses: Vec<Response>, now: u64) -> (r: ResponseCache)
        ensures
            r.wf(),
            entries_view(r.responses@) == merge_entries(Seq::empty(), fresh_entries(responses@, now as nat)),
            r.last_updated == now,
            r.options == options,
            r.minimum_refresh == options.max_wait_time as u64,
    {
        let minimum_refresh = options.max_wait_time as u64;
        let mut cache = ResponseCache { options, minimum_refresh, last_updated: now, responses: Vec::new() };
        assert(entries_view(cache.responses@) =~= Seq::<EntryView>::empty());
        cache.merge_all(responses, now);
        cache
    }

    /// Drops the entries that have expired at `now`, then merges the answers of a new search
    /// received at `now`.
    pub fn refresh(&mut self, responses: Vec<Response>, now: u64)
        requires
            old(self).wf(),
        ensures
            final(self).wf(),
            entries_view(final(self).responses@) == merge_entries(
                unexpired(entries_view(old(self).responses@), now as nat),
                fresh_entries(responses@, now as nat),
            ),
            final(self).last_updated == now,
            final(self).options == old(self).options,
    {
        let ghost orig = entries_view(self.responses@);
        proof { lemma_unexpired_unique(orig, now as nat); }
        assert(consistent(orig));
        let mut i: usize = 0;
        let ghost mut j: int = 0;
        while i < self.responses.len()
            invariant
                0 <= j <= orig.len(),
                i <= self.responses@.len(),
                unique_names(orig),
                self.options == old(self).options,
                i == unexpired(orig.subrange(0, j), now as nat).len(),
                entries_view(self.responses@) == unexpired(orig.subrange(0, j), now as nat)
                    + orig.subrange(j, orig.len() as int),
            decreases self.responses@.len() - i,
        {
            let ghost cur = entries_view(self.responses@);
            assert(cur[i as int] == orig[j]);
            assert(orig.subrange(0, j + 1).drop_last() =~= orig.subrange(0, j));
            assert(orig.subrange(0, j + 1).last() == orig[j]);
            if self.responses[i].expiration < now {
                let ghost vbefore = self.responses@;
                self.responses.remove(i);
                assert(self.responses@ == vbefore.remove(i as int));
                assert(entries_view(self.responses@) =~= cur.remove(i as int));
                assert(entries_view(self.responses@) =~= unexpired(orig.subrange(0, j + 1), now as nat)
                    + orig.subrange(j + 1, orig.len() as int));
            } else {
                assert(entries_view(self.responses@) =~= unexpired(orig.subrange(0, j + 1), now as nat)
                    + orig.subrange(j + 1, orig.len() as int));
                i = i + 1;
            }
            proof { j = j + 1; }
        }
        proof {
            assert(j == orig.len()) by {
                if j < orig.len() {
                    assert(entries_view(self.responses@).len() > i);
                }
            }
            assert(orig.subrange(0, j) =~= orig);
            assert(entries_view(self.responses@) =~= unexpired(orig, now as nat));
        }
        self.last_updated = now;
        self.merge_all(responses, now);
    }

    /// When the cache was last filled.
    pub fn last_updated(&self) -> (r: u64)
        ensures
            r == self.last_updated,
    {
        self.last_updated
    }

    /// The answers that have not expired at `now`, in entry order; no two share a service
    /// name.
    pub fn responses(&self, now: u64) -> (r: Vec<&Response>)
        requires
            self.wf(),
        ensures
            r@.len() == unexpired(entries_view(self.responses@), now as nat).len(),
            forall|i: int| 0 <= i < r@.len() ==> *r@[i] == unexpired(entries_view(self.responses@), now as nat)[i].2,
            forall|i: int, j: int| 0 <= i < j < r@.len() ==> r@[i].service_name@ != r@[j].service_name@,
    {
        let ghost ev = entries_view(self.responses@);
        let mut out: Vec<&Response> = Vec::new();
        let mut i: usize = 0;
        while i < self.responses.len()
            invariant
                i <= self.responses@.len(),
                ev == entries_view(self.responses@),
                out@.len() == unexpired(ev.subrange(0, i as int), now as nat).len(),
                forall|k: int| 0 <= k < out@.len() ==> *out@[k] == unexpired(ev.subrange(0, i as int), now as nat)[k].2,
            decreases self.responses.len() - i,
        {
            let ghost before = out@;
            let ghost s = ev.subrange(0, i + 1);
            assert(s.drop_last() =~= ev.subrange(0, i as int));
            assert(s.last() == ev[i as int]);
            if self.responses[i].expiration >= now {
                out.push(&self.responses[i].response);
                assert forall|k: int| 0 <= k < out@.len() implies *out@[k] == unexpired(s, now as nat)[k].2 by {
                    if k < before.len() {
                        assert(out@[k] == before[k]);
                    }
                }
            }
            i = i + 1;
        }
        assert(ev.subrange(0, i as int) =~= ev);
        proof {
            assert(consistent(ev));
            lemma_unexpired_unique(ev, now as nat);
            let u = unexpired(ev, now as nat);
            assert forall|a: int, b: int| 0 <= a < b < out@.len() implies out@[a].service_name@ != out@[b].service_name@ by {
                assert(u[a].0 == u[a].2.service_name@);
                assert(u[b].0 == u[b].2.service_name@);
            }
        }
        out
    }

    /// Every cached entry, expired or not.
    pub fn entries(&self) -> (r: &Vec<CachedResponse>)
        ensures
            r == &self.responses,
    {
        &self.responses
    }
}

} // verus!

verus! {

/// The wait time decides validation: when the product token and control point follow the
/// rules of the version, the options are valid exactly when the wait time is between 1 and
/// 120 seconds.
pub proof fn lemma_max_wait_bounds(o: Options)
    requires
        o.spec_version.spec_at_least(SpecVersion::V11) && o.product_and_version is Some
            ==> product_token_ok(o.product_and_version->Some_0),
        o.spec_version.spec_at_least(SpecVersion::V20) ==> o.control_point is Some
            && o.control_point->Some_0.friendly_name@.len() > 0,
    ensures
        options_fault(o) is None <==> 1 <= o.max_wait_time <= 120,
{
}

} // verus!
