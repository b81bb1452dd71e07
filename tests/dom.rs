use upnp_rs::dom::{DomError, Implementation, Name};

#[test]
fn test_create_simple_doc() {
    let mut document_node = Implementation::create_document("uri:urn:simons:thing:1", "root", None).unwrap();
    println!("document 1: {:#?}", document_node);
    let root = document_node.create_element("root").unwrap();
    println!("element 1: {:#?}", root);
    let root_node = document_node.append_child(root).unwrap();
    let _ = document_node.set_attribute(root_node, "version", "1.0");
    let _ = document_node.set_attribute(root_node, "something", "else");
    let xml = document_node.to_string();
    println!("document 2: {}", xml);
    assert!(xml.starts_with("<root"));
    assert!(xml.ends_with("</root>"));
    assert!(xml.contains("\"version\"=\"1.0\""));
    assert!(xml.contains("\"something\"=\"else\""));
}

#[test]
fn nested_elements_and_text() {
    let mut d = Implementation::create_document("urn:x", "doc", None).unwrap();
    let root = d.create_element("root").unwrap();
    d.append_child(root).unwrap();
    let child = d.create_element("p:child").unwrap();
    d.append_child_to(root, child).unwrap();
    let t = d.create_text_node("hello").unwrap();
    d.append_child_to(child, t).unwrap();
    d.set_attribute(child, "a", "1").unwrap();
    d.set_attribute(child, "a", "2").unwrap();
    assert_eq!(d.to_string(), "<root><p:child \"a\"=\"2\">hello</p:child></root>");
    assert_eq!(d.append_child_to(root, 99), Err(DomError::NotFound));
    assert_eq!(d.set_attribute(t, "a", "1"), Err(DomError::HierarchyRequest));
}

#[test]
fn names() {
    let n = Name::new_ns("urn:x", "p:local").unwrap();
    assert_eq!(n.prefix().as_deref(), Some("p"));
    assert_eq!(n.local_name(), "local");
    assert_eq!(n.to_string(), "p:local");
    assert!(matches!(Name::new_ns("", "a"), Err(DomError::Namespace)));
    assert!(matches!(Name::new_ns("urn:x", "xml:a"), Err(DomError::Namespace)));
    assert!(Name::new_ns("http://www.w3.org/XML/1998/namespace", "xml:a").is_ok());
    assert!(matches!(Name::parse("a:b:c"), Err(DomError::Syntax)));
    assert!(matches!(Name::parse("a\u{1}"), Err(DomError::InvalidCharacter)));
    let mut m = Name::parse("x").unwrap();
    m.set_prefix("q");
    assert_eq!(m.to_string(), "q:x");
    m.unset_prefix();
    assert_eq!(m.to_string(), "x");
    assert_eq!(Name::for_document().local_name(), "#document");
}
