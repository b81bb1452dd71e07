//! A small document object model: names, nodes held in an arena and addressed by index, and
//! the text of a document. It builds documents in memory; descriptions are written with the
//! streaming writer instead.

use vstd::prelude::*;
use crate::headers::{self, HeaderSeq, Headers};
use crate::text;

verus! {

/// Why a document operation was refused.
#[derive(Clone, Copy, Debug, PartialEq, Eq, Structural)]
pub enum DomError {
    /// A name has more than one `:`.
    Syntax,
    /// A name holds a character that XML does not allow.
    InvalidCharacter,
    /// A namespace is empty, or does not fit a reserved prefix.
    Namespace,
    /// No node has the index given.
    NotFound,
    /// The node cannot take such a child.
    HierarchyRequest,
}

pub const XML_NS_ATTRIBUTE: &'static str = "xml";
pub const XML_NS_URI: &'static str = "http://www.w3.org/XML/1998/namespace";
pub const XMLNS_NS_ATTRIBUTE: &'static str = "xmlns";
pub const XMLNS_NS_URI: &'static str = "http://www.w3.org/2000/xmlns/";

/// A qualified name with its namespace.
#[derive(Debug)]
pub struct Name {
    pub namespace_uri: Option<String>,
    pub prefix: Option<String>,
    pub local_name: String,
}

/// The characters that an XML 1.0 document may hold.
pub open spec fn xml_char(c: char) -> bool {
    c == '\t' || c == '\n' || c == '\r' || ('\u{20}' <= c && c <= '\u{D7FF}') || ('\u{10000}' <= c
        && c <= '\u{10FFF}')
}

pub open spec fn all_xml_chars(s: Seq<char>) -> bool {
    forall|i: int| 0 <= i < s.len() ==> xml_char(#[trigger] s[i])
}

fn check_part(part: &[char]) -> (r: Result<String, DomError>)
    ensures
        r is Ok <==> all_xml_chars(part@),
        r matches Ok(s) ==> s@ == part@,
        r matches Err(e) ==> e == DomError::InvalidCharacter,
{
    let mut i: usize = 0;
    while i < part.len()
        invariant
            i <= part@.len(),
            forall|j: int| 0 <= j < i ==> xml_char(#[trigger] part@[j]),
        decreases part.len() - i,
    {
        let c = part[i];
        if !(c == '\t' || c == '\n' || c == '\r' || ('\u{20}' <= c && c <= '\u{D7FF}') || ('\u{10000}'
            <= c && c <= '\u{10FFF}')) {
            assert(!xml_char(part@[i as int]));
            return Err(DomError::InvalidCharacter);
        }
        i = i + 1;
    }
    Ok(text::string_from_chars(part))
}

/// The prefix and local part of a qualified name, split at its only `:`, if it has one.
pub open spec fn name_parts(s: Seq<char>) -> Option<(Option<Seq<char>>, Seq<char>)> {
    let i = text::find_from(s, ':', 0);
    if i >= s.len() {
        Some((None, s))
    } else if text::find_from(s, ':', i + 1) < s.len() {
        None
    } else {
        Some((Some(s.subrange(0, i)), s.subrange(i + 1, s.len() as int)))
    }
}

/// A namespace fits a prefix: the prefixes `xml` and `xmlns` require their reserved namespaces.
pub open spec fn namespace_fits(prefix: Option<Seq<char>>, namespace_uri: Seq<char>) -> bool {
    !(prefix == Some(XML_NS_ATTRIBUTE@) && namespace_uri != XML_NS_URI@) && !(prefix == Some(
        XMLNS_NS_ATTRIBUTE@,
    ) && namespace_uri != XMLNS_NS_URI@)
}

/// A qualified name that a namespace can hold: valid characters, at most one `:`, a non-empty
/// namespace that fits the prefix.
pub open spec fn valid_ns_name(namespace_uri: Seq<char>, qualified_name: Seq<char>) -> bool {
    &&& all_xml_chars(qualified_name)
    &&& name_parts(qualified_name) is Some
    &&& namespace_uri.len() > 0
    &&& namespace_fits(name_parts(qualified_name)->Some_0.0, namespace_uri)
}

impl Name {
    pub open spec fn prefix_view(&self) -> Option<Seq<char>> {
        match self.prefix {
            Some(p) => Some(p@),
            None => None,
        }
    }

    /// `prefix:local`, or the local name alone.
    pub open spec fn text(&self) -> Seq<char> {
        match self.prefix {
            Some(p) => p@ + seq![':'] + self.local_name@,
            None => self.local_name@,
        }
    }

    fn named(local_name: &str) -> (r: Self)
        ensures
            r.local_name@ == local_name@,
            r.prefix is None,
            r.namespace_uri is None,
    {
        Name { namespace_uri: None, prefix: None, local_name: local_name.to_string() }
    }

    /// Reads a qualified name without a namespace.
    pub fn parse(qualified_name: &str) -> (r: Result<Self, DomError>)
        ensures
            r matches Ok(n) ==> name_parts(qualified_name@) == Some((n.prefix_view(), n.local_name@))
                && n.namespace_uri is None,
            name_parts(qualified_name@) is None ==> r == Err::<Self, DomError>(DomError::Syntax),
            all_xml_chars(qualified_name@) && name_parts(qualified_name@) is Some ==> r is Ok,
    {
        let c = text::chars_of(qualified_name);
        let i = text::find_char(c.as_slice(), ':', 0);
        if i >= c.len() {
            let local_name = check_part(c.as_slice())?;
            return Ok(Name { namespace_uri: None, prefix: None, local_name });
        }
        let j = text::find_char(c.as_slice(), ':', i + 1);
        if j < c.len() {
            return Err(DomError::Syntax);
        }
        assert(all_xml_chars(c@) ==> all_xml_chars(c@.subrange(0, i as int)) && all_xml_chars(
            c@.subrange(i + 1, c@.len() as int),
        )) by {
            if all_xml_chars(c@) {
                assert forall|k: int| 0 <= k < i implies xml_char(#[trigger] c@.subrange(0, i as int)[k]) by {
                    assert(c@.subrange(0, i as int)[k] == c@[k]);
                }
                assert forall|k: int| 0 <= k < c@.len() - i - 1 implies xml_char(
                    #[trigger] c@.subrange(i + 1, c@.len() as int)[k],
                ) by {
                    assert(c@.subrange(i + 1, c@.len() as int)[k] == c@[i + 1 + k]);
                }
            }
        }
        let prefix = check_part(text::slice_range(c.as_slice(), 0, i))?;
        let local_name = check_part(text::slice_range(c.as_slice(), i + 1, c.len()))?;
        Ok(Name { namespace_uri: None, prefix: Some(prefix), local_name })
    }

    /// A qualified name in a namespace. The namespace may not be empty, and the prefixes `xml`
    /// and `xmlns` require their reserved namespaces.
    pub fn new_ns(namespace_uri: &str, qualified_name: &str) -> (r: Result<Self, DomError>)
        ensures
            r matches Ok(n) ==> name_parts(qualified_name@) == Some((n.prefix_view(), n.local_name@))
                && (n.namespace_uri matches Some(u) && u@ == namespace_uri@),
            r is Ok ==> namespace_uri@.len() > 0,
            valid_ns_name(namespace_uri@, qualified_name@) ==> r is Ok,
            all_xml_chars(qualified_name@) && name_parts(qualified_name@) is Some
                && namespace_uri@.len() == 0 ==> r == Err::<Self, DomError>(DomError::Namespace),
    {
        let mut parsed = Name::parse(qualified_name)?;
        if namespace_uri.is_empty() {
            return Err(DomError::Namespace);
        }
        if let Some(prefix) = &parsed.prefix {
            let xml = XML_NS_ATTRIBUTE.to_string();
            let xmlns = XMLNS_NS_ATTRIBUTE.to_string();
            let uri = namespace_uri.to_string();
            if (*prefix == xml && !(uri == XML_NS_URI.to_string())) || (*prefix == xmlns && !(uri
                == XMLNS_NS_URI.to_string())) {
                return Err(DomError::Namespace);
            }
        }
        parsed.namespace_uri = Some(namespace_uri.to_string());
        Ok(parsed)
    }

    pub fn for_cdata() -> (r: Self)
        ensures
            r.local_name@ == "#cdata-section"@,
            r.prefix is None,
            r.namespace_uri is None,
    {
        Self::named("#cdata-section")
    }

    pub fn for_comment() -> (r: Self)
        ensures
            r.local_name@ == "#comment"@,
            r.prefix is None,
            r.namespace_uri is None,
    {
        Self::named("#comment")
    }

    pub fn for_document() -> (r: Self)
        ensures
            r.local_name@ == "#document"@,
            r.prefix is None,
            r.namespace_uri is None,
    {
        Self::named("#document")
    }

    pub fn for_text() -> (r: Self)
        ensures
            r.local_name@ == "#text"@,
            r.prefix is None,
            r.namespace_uri is None,
    {
        Self::named("#text")
    }

    pub fn namespace_uri(&self) -> (r: &Option<String>)
        ensures
            r == &self.namespace_uri,
    {
        &self.namespace_uri
    }

    pub fn local_name(&self) -> (r: &String)
        ensures
            r == &self.local_name,
    {
        &self.local_name
    }

    pub fn prefix(&self) -> (r: &Option<String>)
        ensures
            r == &self.prefix,
    {
        &self.prefix
    }

    pub fn set_prefix(&mut self, new_prefix: &str)
        ensures
            final(self).prefix_view() == Some(new_prefix@),
            final(self).local_name == old(self).local_name,
            final(self).namespace_uri == old(self).namespace_uri,
    {
        self.prefix = Some(new_prefix.to_string());
    }

    pub fn unset_prefix(&mut self)
        ensures
            final(self).prefix is None,
            final(self).local_name == old(self).local_name,
            final(self).namespace_uri == old(self).namespace_uri,
    {
        self.prefix = None;
    }

    /// `prefix:local`, or the local name alone.
    pub fn to_string(&self) -> (r: String)
        ensures
            r@ == self.text(),
    {
        let mut out: Vec<char> = Vec::new();
        if let Some(p) = &self.prefix {
            text::push_str(&mut out, p.as_str());
            out.push(':');
        }
        text::push_str(&mut out, self.local_name.as_str());
        assert(out@ =~= self.text());
        text::string_from_chars(out.as_slice())
    }
}

/// The kinds of node.
#[derive(Clone, Copy, Debug, PartialEq, Eq, Structural)]
pub enum NodeType {
    Element,
    Attribute,
    Text,
    CData,
    ProcessingInstruction,
    Comment,
    Document,
    DocumentType,
}

/// A node of a document: its kind, name, value, attributes, and children as indices into the
/// document's nodes.
#[derive(Debug)]
pub struct NodeImpl {
    pub node_type: NodeType,
    pub name: Name,
    pub value: Option<String>,
    pub attributes: Headers,
    pub children: Vec<usize>,
}

impl NodeImpl {
    fn with(node_type: NodeType, name: Name, value: Option<String>) -> (r: Self)
        ensures
            r.node_type == node_type,
            r.name == name,
            r.value == value,
            r.attributes@.len() == 0,
            r.attributes.wf(),
            r.children@.len() == 0,
    {
        NodeImpl { node_type, name, value, attributes: Headers::new(), children: Vec::new() }
    }

    pub fn new_element(name: Name) -> (r: Self)
        ensures
            r.node_type == NodeType::Element,
            r.name == name,
            r.attributes@.len() == 0,
            r.attributes.wf(),
            r.children@.len() == 0,
    {
        Self::with(NodeType::Element, name, None)
    }

    pub fn new_attribute(name: Name, value: Option<&str>) -> (r: Self)
        ensures
            r.node_type == NodeType::Attribute,
            r.name == name,
            r.value matches Some(v) ==> value matches Some(w) && v@ == w@,
            r.value is None <==> value is None,
            r.attributes.wf(),
    {
        let value = match value {
            Some(v) => Some(v.to_string()),
            None => None,
        };
        Self::with(NodeType::Attribute, name, value)
    }

    pub fn new_text(data: &str) -> (r: Self)
        ensures
            r.node_type == NodeType::Text,
            r.name.local_name@ == "#text"@,
            r.name.prefix is None,
            r.name.namespace_uri is None,
            r.attributes@.len() == 0,
            r.children@.len() == 0,
            r.value matches Some(v) && v@ == data@,
            r.attributes.wf(),
    {
        Self::with(NodeType::Text, Name::for_text(), Some(data.to_string()))
    }

    pub fn new_cdata(data: &str) -> (r: Self)
        ensures
            r.node_type == NodeType::CData,
            r.value matches Some(v) && v@ == data@,
            r.attributes.wf(),
    {
        Self::with(NodeType::CData, Name::for_cdata(), Some(data.to_string()))
    }

    pub fn new_processing_instruction(target: Name, data: Option<&str>) -> (r: Self)
        ensures
            r.node_type == NodeType::ProcessingInstruction,
            r.name == target,
            r.value is None <==> data is None,
            r.attributes.wf(),
    {
        let value = match data {
            Some(v) => Some(v.to_string()),
            None => None,
        };
        Self::with(NodeType::ProcessingInstruction, target, value)
    }

    pub fn new_comment(data: &str) -> (r: Self)
        ensures
            r.node_type == NodeType::Comment,
            r.value matches Some(v) && v@ == data@,
            r.attributes.wf(),
    {
        Self::with(NodeType::Comment, Name::for_comment(), Some(data.to_string()))
    }

    pub fn new_document(name: Name) -> (r: Self)
        ensures
            r.node_type == NodeType::Document,
            r.name == name,
            r.children@.len() == 0,
            r.attributes.wf(),
    {
        Self::with(NodeType::Document, name, None)
    }

    pub fn new_document_type(name: Name) -> (r: Self)
        ensures
            r.node_type == NodeType::DocumentType,
            r.name == name,
            r.attributes.wf(),
    {
        Self::with(NodeType::DocumentType, name, None)
    }
}

/// A document: its nodes, the document node first, and its element, if it has one yet.
/// Children are not checked for cycles; the text of a document is bounded by its size.
#[derive(Debug)]
pub struct Document {
    pub nodes: Vec<NodeImpl>,
    pub document_element: Option<usize>,
}

/// Creates documents.
#[derive(Debug)]
pub struct Implementation {}

impl Implementation {
    /// A document named in a namespace, without an element yet.
    pub fn create_document(
        namespace_uri: &str,
        qualified_name: &str,
        doc_type: Option<NodeImpl>,
    ) -> (r: Result<Document, DomError>)
        requires
            doc_type matches Some(t) ==> t.attributes.wf(),
        ensures
            r matches Ok(d) ==> d.nodes@.len() >= 1 && d.nodes@[0].node_type == NodeType::Document
                && d.document_element is None && d.wf() && d.nodes@[0].children@.len() == 0
                && name_parts(qualified_name@) == Some(
                (d.nodes@[0].name.prefix_view(), d.nodes@[0].name.local_name@),
            ) && (d.nodes@[0].name.namespace_uri matches Some(u) && u@ == namespace_uri@),
            namespace_uri@.len() == 0 ==> r is Err,
            valid_ns_name(namespace_uri@, qualified_name@) ==> r is Ok,
            r matches Ok(d) ==> (doc_type is None ==> d.nodes@.len() == 1),
    {
        let name = Name::new_ns(namespace_uri, qualified_name)?;
        let mut nodes: Vec<NodeImpl> = Vec::new();
        nodes.push(NodeImpl::new_document(name));
        if let Some(t) = doc_type {
            nodes.push(t);
        }
        Ok(Document { nodes, document_element: None })
    }

    /// A document type node.
    pub fn create_document_type(qualified_name: &str) -> (r: Result<NodeImpl, DomError>)
        ensures
            r matches Ok(n) ==> n.node_type == NodeType::DocumentType,
    {
        let name = Name::parse(qualified_name)?;
        Ok(NodeImpl::new_document_type(name))
    }
}

} // verus!

verus! {

/// ` "name"="value"` for each attribute, in order.
pub open spec fn attributes_text(a: HeaderSeq) -> Seq<char>
    decreases a.len(),
{
    if a.len() == 0 {
        Seq::empty()
    } else {
        attributes_text(a.drop_last()) + seq![' ', '"'] + a.last().0 + seq!['"', '=', '"'] + a.last().1
            + seq!['"']
    }
}

/// The text of node `i`: an element as its tags, attributes and children; a text node as its
/// data; other nodes as nothing. `fuel` bounds the depth.
pub open spec fn node_text(ns: Seq<NodeImpl>, i: int, fuel: nat) -> Seq<char>
    decreases fuel, 0nat,
{
    if fuel == 0 || i < 0 || i >= ns.len() {
        Seq::empty()
    } else {
        let n = ns[i];
        match n.node_type {
            NodeType::Element => seq!['<'] + n.name.text() + attributes_text(n.attributes@) + seq!['>']
                + children_text(ns, n.children@, (fuel - 1) as nat) + seq!['<', '/'] + n.name.text()
                + seq!['>'],
            NodeType::Text => match n.value {
                Some(v) => v@,
                None => Seq::empty(),
            },
            _ => Seq::empty(),
        }
    }
}

/// The texts of the nodes `cs`, in order.
pub open spec fn children_text(ns: Seq<NodeImpl>, cs: Seq<usize>, fuel: nat) -> Seq<char>
    decreases fuel, cs.len() + 1,
{
    if cs.len() == 0 {
        Seq::empty()
    } else {
        children_text(ns, cs.drop_last(), fuel) + node_text(ns, cs.last() as int, fuel)
    }
}

/// The text of a document: the document node's children, then its element.
pub open spec fn document_text(d: Document) -> Seq<char> {
    let fuel = d.nodes@.len();
    (if d.nodes@.len() > 0 {
        children_text(d.nodes@, d.nodes@[0].children@, fuel)
    } else {
        Seq::empty()
    }) + match d.document_element {
        Some(e) => node_text(d.nodes@, e as int, fuel),
        None => Seq::empty(),
    }
}

fn push_attributes(out: &mut Vec<char>, a: &Headers)
    ensures
        final(out)@ == old(out)@ + attributes_text(a@),
{
    let mut i: usize = 0;
    while i < a.entries.len()
        invariant
            i <= a@.len(),
            out@ == old(out)@ + attributes_text(a@.subrange(0, i as int)),
        decreases a.entries.len() - i,
    {
        let e = &a.entries[i];
        out.push(' ');
        out.push('"');
        text::push_str(out, e.0.as_str());
        out.push('"');
        out.push('=');
        out.push('"');
        text::push_str(out, e.1.as_str());
        out.push('"');
        proof {
            let s = a@.subrange(0, i + 1);
            assert(s.drop_last() =~= a@.subrange(0, i as int));
            assert(s.last() == headers::entry_view(a.entries@[i as int]));
        }
        i = i + 1;
        assert(out@ =~= old(out)@ + attributes_text(a@.subrange(0, i as int)));
    }
    assert(a@.subrange(0, i as int) =~= a@);
}

impl Document {
    /// Every index a node holds names a node of the document.
    pub open spec fn wf(&self) -> bool {
        &&& self.nodes@.len() >= 1
        &&& self.nodes@[0].node_type == NodeType::Document
        &&& self.nodes@.len() < usize::MAX
        &&& forall|i: int| 0 <= i < self.nodes@.len() ==> (#[trigger] self.nodes@[i]).attributes.wf()
    }

    fn push_node(&self, out: &mut Vec<char>, i: usize, fuel: usize)
        ensures
            final(out)@ == old(out)@ + node_text(self.nodes@, i as int, fuel as nat),
        decreases fuel, 0nat,
    {
        if fuel == 0 || i >= self.nodes.len() {
            return;
        }
        let n = &self.nodes[i];
        match n.node_type {
            NodeType::Element => {
                let name = n.name.to_string();
                out.push('<');
                text::push_str(out, name.as_str());
                push_attributes(out, &n.attributes);
                out.push('>');
                self.push_children(out, &n.children, fuel - 1);
                out.push('<');
                out.push('/');
                text::push_str(out, name.as_str());
                out.push('>');
                assert(out@ =~= old(out)@ + node_text(self.nodes@, i as int, fuel as nat));
            },
            NodeType::Text => {
                if let Some(v) = &n.value {
                    text::push_str(out, v.as_str());
                }
                assert(out@ =~= old(out)@ + node_text(self.nodes@, i as int, fuel as nat));
            },
            _ => {
                assert(out@ =~= old(out)@ + node_text(self.nodes@, i as int, fuel as nat));
            },
        }
    }

    fn push_children(&self, out: &mut Vec<char>, cs: &Vec<usize>, fuel: usize)
        ensures
            final(out)@ == old(out)@ + children_text(self.nodes@, cs@, fuel as nat),
        decreases fuel, cs@.len() + 1,
    {
        let mut k: usize = 0;
        while k < cs.len()
            invariant
                k <= cs@.len(),
                out@ == old(out)@ + children_text(self.nodes@, cs@.subrange(0, k as int), fuel as nat),
            decreases cs.len() - k,
        {
            self.push_node(out, cs[k], fuel);
            proof {
                let s = cs@.subrange(0, k + 1);
                assert(s.drop_last() =~= cs@.subrange(0, k as int));
                assert(s.last() == cs@[k as int]);
            }
            k = k + 1;
            assert(out@ =~= old(out)@ + children_text(self.nodes@, cs@.subrange(0, k as int), fuel as nat));
        }
        assert(cs@.subrange(0, k as int) =~= cs@);
    }

    /// Adds a new element, not yet in the tree, and returns its index.
    pub fn create_element(&mut self, tag_name: &str) -> (r: Result<usize, DomError>)
        requires
            old(self).wf(),
        ensures
            final(self).wf(),
            final(self).document_element == old(self).document_element,
            r matches Ok(i) ==> i == old(self).nodes@.len() && final(self).nodes@.len() == i + 1
                && final(self).nodes@.subrange(0, i as int) == old(self).nodes@
                && final(self).nodes@[i as int].node_type == NodeType::Element
                && final(self).nodes@[i as int].children@.len() == 0
                && final(self).nodes@[i as int].attributes@.len() == 0
                && name_parts(tag_name@) == Some(
                (final(self).nodes@[i as int].name.prefix_view(), final(self).nodes@[i as int].name.local_name@),
            ),
            r is Err ==> final(self).nodes@ == old(self).nodes@,
    {
        if self.nodes.len() >= usize::MAX - 1 {
            return Err(DomError::HierarchyRequest);
        }
        let name = Name::parse(tag_name)?;
        let i = self.nodes.len();
        self.nodes.push(NodeImpl::new_element(name));
        assert(self.nodes@.subrange(0, i as int) =~= old(self).nodes@);
        Ok(i)
    }

    /// Adds a new text node, not yet in the tree, and returns its index.
    pub fn create_text_node(&mut self, data: &str) -> (r: Result<usize, DomError>)
        requires
            old(self).wf(),
        ensures
            final(self).wf(),
            final(self).document_element == old(self).document_element,
            r matches Ok(i) ==> i == old(self).nodes@.len() && final(self).nodes@.len() == i + 1
                && final(self).nodes@.subrange(0, i as int) == old(self).nodes@,
    {
        if self.nodes.len() >= usize::MAX - 1 {
            return Err(DomError::HierarchyRequest);
        }
        let i = self.nodes.len();
        self.nodes.push(NodeImpl::new_text(data));
        assert(self.nodes@.subrange(0, i as int) =~= old(self).nodes@);
        Ok(i)
    }

    /// Appends node `child` to the document: an element becomes the document's element, any
    /// other node a child of the document node.
    pub fn append_child(&mut self, child: usize) -> (r: Result<usize, DomError>)
        requires
            old(self).wf(),
        ensures
            final(self).wf(),
            r is Ok <==> 0 < child < old(self).nodes@.len(),
            r matches Ok(c) ==> c == child && if old(self).nodes@[child as int].node_type
                == NodeType::Element {
                final(self).document_element == Some(child)
            } else {
                final(self).nodes@[0].children@ == old(self).nodes@[0].children@.push(child)
            },
    {
        self.append_child_to(0, child)
    }

    /// Appends node `child` to node `parent`; a document takes one element, as its element.
    pub fn append_child_to(&mut self, parent: usize, child: usize) -> (r: Result<usize, DomError>)
        requires
            old(self).wf(),
        ensures
            final(self).wf(),
            r is Ok <==> parent < old(self).nodes@.len() && child < old(self).nodes@.len() && child
                != parent && child != 0,
            r matches Ok(c) ==> c == child && if parent == 0 && old(self).nodes@[child as int].node_type
                == NodeType::Element {
                final(self).document_element == Some(child)
            } else {
                final(self).nodes@[parent as int].children@ == old(self).nodes@[parent as int].children@.push(child)
            },
    {
        if !(parent < self.nodes.len() && child < self.nodes.len() && child != parent && child != 0) {
            return Err(DomError::NotFound);
        }
        let is_element = match self.nodes[child].node_type {
            NodeType::Element => true,
            _ => false,
        };
        if parent == 0 && is_element {
            self.document_element = Some(child);
        } else {
            let ghost before = self.nodes@;
            let mut node = self.nodes.remove(parent);
            node.children.push(child);
            self.nodes.insert(parent, node);
            assert(self.nodes@ =~= before.update(parent as int, node));
            assert forall|i: int| 0 <= i < self.nodes@.len() implies (#[trigger] self.nodes@[i]).attributes.wf() by {
                if i != parent as int {
                    assert(self.nodes@[i] == old(self).nodes@[i]);
                }
            }
        }
        Ok(child)
    }

    /// Sets an attribute of element `element`, replacing any earlier value of the same name.
    pub fn set_attribute(&mut self, element: usize, name: &str, value: &str) -> (r: Result<(), DomError>)
        requires
            old(self).wf(),
        ensures
            final(self).wf(),
            final(self).document_element == old(self).document_element,
            r is Ok ==> element < old(self).nodes@.len() && name_parts(name@) is Some
                && final(self).nodes@ == old(self).nodes@.update(element as int, NodeImpl {
                    attributes: final(self).nodes@[element as int].attributes,
                    ..old(self).nodes@[element as int]
                }) && final(self).nodes@[element as int].attributes@ == headers::insert(
                old(self).nodes@[element as int].attributes@,
                name@,
                value@,
            ),
            r is Err ==> final(self).nodes@ == old(self).nodes@,
            element < old(self).nodes@.len() && old(self).nodes@[element as int].node_type
                == NodeType::Element && all_xml_chars(name@) && name_parts(name@) is Some ==> r is Ok,
    {
        if element >= self.nodes.len() {
            return Err(DomError::NotFound);
        }
        match self.nodes[element].node_type {
            NodeType::Element => {},
            _ => {
                return Err(DomError::HierarchyRequest);
            },
        }
        let checked = Name::parse(name);
        match checked {
            Err(e) => {
                return Err(e);
            },
            Ok(_) => {},
        }
        let ghost before = self.nodes@;
        let mut node = self.nodes.remove(element);
        node.attributes.insert(name.to_string(), value.to_string());
        self.nodes.insert(element, node);
        assert(self.nodes@ =~= before.update(element as int, node));
        assert forall|i: int| 0 <= i < self.nodes@.len() implies (#[trigger] self.nodes@[i]).attributes.wf() by {
            if i != element as int {
                assert(self.nodes@[i] == before[i]);
            }
        }
        Ok(())
    }

    /// The text of the document.
    pub fn to_string(&self) -> (r: String)
        ensures
            r@ == document_text(*self),
    {
        let mut out: Vec<char> = Vec::new();
        let fuel = self.nodes.len();
        if self.nodes.len() > 0 {
            self.push_children(&mut out, &self.nodes[0].children, fuel);
        }
        if let Some(e) = self.document_element {
            self.push_node(&mut out, e, fuel);
        }
        assert(out@ =~= document_text(*self));
        text::string_from_chars(out.as_slice())
    }
}

} // verus!
