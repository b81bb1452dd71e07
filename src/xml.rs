//! A minimal XML writer for description documents: a declaration, start tags with attributes,
//! text and end tags. The bytes come from `quick_xml`; this module keeps a log of the events
//! written, over which the description writers state their contracts.

use vstd::prelude::*;
use crate::error::Error;
use quick_xml::events::{BytesDecl, BytesEnd, BytesStart, BytesText, Event};

verus! {

/// `quick_xml::Writer`, held opaque: only the wrappers below touch it.
#[verifier::external_type_specification]
#[verifier::external_body]
#[verifier::reject_recursive_types(W)]
pub struct ExXmlWriter<W>(quick_xml::Writer<W>);

/// An event of an XML document.
pub enum XmlEvent {
    /// The declaration `<?xml version="1.0"?>`.
    Decl,
    /// A start tag with its attributes in order.
    Start(Seq<char>, Seq<(Seq<char>, Seq<char>)>),
    /// Text, escaped on writing.
    Text(Seq<char>),
    /// An end tag.
    End(Seq<char>),
}

/// Relies on `quick_xml::Writer::new`: a writer into an empty buffer.
#[verifier::external_body]
fn new_writer() -> quick_xml::Writer<Vec<u8>> {
    quick_xml::Writer::new(Vec::new())
}

/// An event to write, as plain values.
pub enum WriteEvent<'a> {
    Decl,
    Start(&'a str, &'a Vec<(String, String)>),
    Text(&'a str),
    End(&'a str),
}

/// Relies on `quick_xml::Writer::write_event`: writes the declaration (version 1.0), a start
/// tag with its attributes pushed in order, text (escaped), or an end tag. Into a `Vec<u8>`
/// every one of these ends in `Vec`'s `write_all`, which does not fail.
#[verifier::external_body]
fn write_event(w: &mut quick_xml::Writer<Vec<u8>>, e: WriteEvent) -> (r: bool)
    ensures
        r,
{
    let event = match e {
        WriteEvent::Decl => Event::Decl(BytesDecl::new("1.0", None, None)),
        WriteEvent::Start(name, attrs) => {
            let mut start = BytesStart::new(name);
            for (k, v) in attrs {
                start.push_attribute((k.as_str(), v.as_str()));
            }
            Event::Start(start)
        },
        WriteEvent::Text(content) => Event::Text(BytesText::new(content)),
        WriteEvent::End(name) => Event::End(BytesEnd::new(name)),
    };
    w.write_event(event).is_ok()
}

/// Relies on `quick_xml::Writer::into_inner`: the buffer written.
#[verifier::external_body]
fn writer_bytes(w: quick_xml::Writer<Vec<u8>>) -> Vec<u8> {
    w.into_inner()
}

/// An XML writer into memory, with the log of the events it has written.
pub struct XmlWriter {
    writer: quick_xml::Writer<Vec<u8>>,
    events: Ghost<Seq<XmlEvent>>,
}

/// A started element, which knows how to end itself.
#[derive(Debug)]
pub struct Element {
    pub name: String,
}

/// The events of `<name>content</name>`.
pub open spec fn text_element_events(name: Seq<char>, content: Seq<char>) -> Seq<XmlEvent> {
    seq![XmlEvent::Start(name, Seq::empty()), XmlEvent::Text(content), XmlEvent::End(name)]
}

pub open spec fn attrs_view(a: Seq<(String, String)>) -> Seq<(Seq<char>, Seq<char>)> {
    a.map_values(|p: (String, String)| (p.0@, p.1@))
}

/// The namespace attribute `xmlns` or `xmlns:{prefix}`.
pub open spec fn xmlns_name(prefix: Option<Seq<char>>) -> Seq<char> {
    match prefix {
        Some(p) => "xmlns"@ + seq![':'] + p,
        None => "xmlns"@,
    }
}

impl XmlWriter {
    /// The events written so far, in order.
    pub closed spec fn log(&self) -> Seq<XmlEvent> {
        self.events@
    }

    pub fn new() -> (r: XmlWriter)
        ensures
            r.log() == Seq::<XmlEvent>::empty(),
    {
        XmlWriter { writer: new_writer(), events: Ghost(Seq::empty()) }
    }

    fn write(&mut self, e: WriteEvent, Ghost(ev): Ghost<XmlEvent>)
        ensures
            final(self).log() == old(self).log().push(ev),
    {
        write_event(&mut self.writer, e);
        self.events = Ghost(self.events@.push(ev));
    }

    /// Writes the XML declaration.
    pub fn start(&mut self) -> (r: Result<(), Error>)
        ensures
            r is Ok,
            final(self).log() == old(self).log().push(XmlEvent::Decl),
    {
        self.write(WriteEvent::Decl, Ghost(XmlEvent::Decl));
        Ok(())
    }

    /// Writes a start tag with attributes.
    pub fn start_element_with(&mut self, name: &str, attrs: &Vec<(String, String)>) -> (r: Result<
        Element,
        Error,
    >)
        ensures
            r matches Ok(e) && e.name@ == name@,
            final(self).log() == old(self).log().push(XmlEvent::Start(name@, attrs_view(attrs@))),
    {
        self.write(WriteEvent::Start(name, attrs), Ghost(XmlEvent::Start(name@, attrs_view(attrs@))));
        Ok(Element { name: name.to_string() })
    }

    /// Writes a start tag.
    pub fn start_element(&mut self, name: &str) -> (r: Result<Element, Error>)
        ensures
            r matches Ok(e) && e.name@ == name@,
            final(self).log() == old(self).log().push(XmlEvent::Start(name@, Seq::empty())),
    {
        let none: Vec<(String, String)> = Vec::new();
        assert(attrs_view(none@) =~= Seq::empty());
        self.start_element_with(name, &none)
    }

    /// Writes a start tag that declares a namespace, with or without a prefix.
    pub fn start_ns_element(&mut self, name: &str, namespace: &str, prefix: Option<&str>) -> (r:
        Result<Element, Error>)
        ensures
            r matches Ok(e) && e.name@ == name@,
            final(self).log() == old(self).log().push(
                XmlEvent::Start(
                    name@,
                    seq![
                        (
                            xmlns_name(
                                match prefix {
                                    Some(p) => Some(p@),
                                    None => None,
                                },
                            ),
                            namespace@,
                        ),
                    ],
                ),
            ),
    {
        let mut xmlns: Vec<char> = Vec::new();
        crate::text::push_str(&mut xmlns, "xmlns");
        if let Some(p) = prefix {
            xmlns.push(':');
            crate::text::push_str(&mut xmlns, p);
        }
        let key = crate::text::string_from_chars(xmlns.as_slice());
        assert(key@ =~= xmlns_name(
            match prefix {
                Some(p) => Some(p@),
                None => None,
            },
        ));
        let value = namespace.to_string();
        let mut attrs: Vec<(String, String)> = Vec::new();
        attrs.push((key, value));
        assert(attrs_view(attrs@) =~= seq![(key@, value@)]);
        self.start_element_with(name, &attrs)
    }

    /// Writes an end tag.
    pub fn end_element(&mut self, name: &str) -> (r: Result<(), Error>)
        ensures
            r is Ok,
            final(self).log() == old(self).log().push(XmlEvent::End(name@)),
    {
        self.write(WriteEvent::End(name), Ghost(XmlEvent::End(name@)));
        Ok(())
    }

    /// Writes `<name></name>`.
    pub fn element(&mut self, name: &str) -> (r: Result<(), Error>)
        ensures
            r is Ok,
            final(self).log() == old(self).log() + seq![
                XmlEvent::Start(name@, Seq::empty()),
                XmlEvent::End(name@),
            ],
    {
        self.start_element(name)?;
        let r = self.end_element(name);
        assert(self.log() =~= old(self).log() + seq![
            XmlEvent::Start(name@, Seq::empty()),
            XmlEvent::End(name@),
        ]);
        r
    }

    /// Writes `<name>content</name>`.
    pub fn text_element(&mut self, name: &str, content: &str) -> (r: Result<(), Error>)
        ensures
            r is Ok,
            final(self).log() == old(self).log() + text_element_events(name@, content@),
    {
        self.start_element(name)?;
        self.write(WriteEvent::Text(content), Ghost(XmlEvent::Text(content@)));
        let r = self.end_element(name);
        assert(self.log() =~= old(self).log() + text_element_events(name@, content@));
        r
    }

    /// The bytes written.
    pub fn into_bytes(self) -> Vec<u8> {
        writer_bytes(self.writer)
    }
}

impl Element {
    /// Writes the element's end tag.
    pub fn end(&self, writer: &mut XmlWriter) -> (r: Result<(), Error>)
        ensures
            r is Ok,
            final(writer).log() == old(writer).log().push(XmlEvent::End(self.name@)),
    {
        writer.end_element(self.name.as_str())
    }
}

} // verus!
