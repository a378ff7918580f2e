//! Reading XML text into the library's document type and writing a document
//! back out as text, both with `xmltree`. Each direction is one call whose
//! result this library names but does not compute.
use vstd::prelude::*;
use crate::xml::{element_view, ElementV, XmlElement, XmlNamespace, XmlNode};

verus! {

#[verifier::external_type_specification]
#[verifier::external_body]
pub struct ExXmlTreeElement(xmltree::Element);

#[verifier::external_type_specification]
#[verifier::external_body]
pub struct ExXmlTreeNode(xmltree::XMLNode);

/// What `xmltree::Element::parse` gives on `text`: the document (its root
/// element with names, attributes in document order, child nodes and
/// namespace details), or the parse error's message.
pub uninterp spec fn xml_parse_spec(text: Seq<char>) -> Result<ElementV, Seq<char>>;

/// Parses `text` with `xmltree::Element::parse`. Only the result's name is
/// stated; XML syntax and xmltree's error messages are not restated here.
#[verifier::external_body]
pub(crate) fn parse_xml(text: &str) -> (r: Result<XmlElement, String>)
    ensures
        match r {
            Ok(e) => xml_parse_spec(text@) == Ok::<ElementV, Seq<char>>(element_view(e)),
            Err(m) => xml_parse_spec(text@) == Err::<ElementV, Seq<char>>(m@),
        },
{
    xmltree::Element::parse(text.as_bytes()).map(|element| element_from_tree(&element)).map_err(|error| error.to_string())
}

/// The library's copy of an `xmltree` element, field for field.
#[verifier::external_body]
fn element_from_tree(e: &xmltree::Element) -> XmlElement {
    XmlElement {
        name: e.name.clone(),
        attributes: e.attributes.iter().map(|(k, v)| (k.clone(), v.clone())).collect(),
        children: e.children.iter().map(node_from_tree).collect(),
        namespace: XmlNamespace {
            prefix: e.prefix.clone(),
            uri: e.namespace.clone(),
            declarations: e.namespaces.as_ref().map(|n| n.0.iter().map(|(p, u)| (p.clone(), u.clone())).collect()),
        },
    }
}

/// The library's copy of an `xmltree` node, variant for variant.
#[verifier::external_body]
fn node_from_tree(n: &xmltree::XMLNode) -> XmlNode {
    match n {
        xmltree::XMLNode::Element(e) => XmlNode::Element(element_from_tree(e)),
        xmltree::XMLNode::Text(t) => XmlNode::Text(t.clone()),
        xmltree::XMLNode::CData(t) => XmlNode::CData(t.clone()),
        xmltree::XMLNode::Comment(t) => XmlNode::Comment(t.clone()),
        xmltree::XMLNode::ProcessingInstruction(a, b) => XmlNode::Instruction(a.clone(), b.clone()),
    }
}

/// What `xmltree::Element::write_with_config`, indenting and with the XML
/// declaration, writes for `doc`: the bytes of the file, or the error's
/// message. The namespace details are part of `doc`'s value.
pub uninterp spec fn xml_emit_spec(doc: ElementV) -> Result<Seq<u8>, Seq<char>>;

/// The bytes written for a document that may not have been made.
pub open spec fn emitted(r: Result<ElementV, Seq<char>>) -> Result<Seq<u8>, Seq<char>> {
    match r {
        Ok(x) => xml_emit_spec(x),
        Err(e) => Err(e),
    }
}

/// Writes `doc` as an XML file's bytes with `xmltree`. Only the result's
/// name is stated; the XML text format is not restated here.
#[verifier::external_body]
pub(crate) fn emit_xml(doc: &XmlElement) -> (r: Result<Vec<u8>, String>)
    ensures
        match r {
            Ok(b) => xml_emit_spec(element_view(*doc)) == Ok::<Seq<u8>, Seq<char>>(b@),
            Err(m) => xml_emit_spec(element_view(*doc)) == Err::<Seq<u8>, Seq<char>>(m@),
        },
{
    let mut buffer = Vec::new();
    let config = xmltree::EmitterConfig::new().perform_indent(true).write_document_declaration(true);
    tree_from_element(doc).write_with_config(&mut buffer, config).map_err(|error| error.to_string())?;
    Ok(buffer)
}

/// The `xmltree` element for a library document, field for field.
#[verifier::external_body]
fn tree_from_element(e: &XmlElement) -> xmltree::Element {
    let mut t = xmltree::Element::new(&e.name);
    t.prefix = e.namespace.prefix.clone();
    t.namespace = e.namespace.uri.clone();
    t.namespaces = e.namespace.declarations.as_ref().map(|d| xmltree::Namespace(d.iter().cloned().collect()));
    t.attributes = e.attributes.iter().cloned().collect();
    t.children = e.children.iter().map(tree_from_node).collect();
    t
}

/// The `xmltree` node for a library node, variant for variant.
#[verifier::external_body]
fn tree_from_node(n: &XmlNode) -> xmltree::XMLNode {
    match n {
        XmlNode::Element(e) => xmltree::XMLNode::Element(tree_from_element(e)),
        XmlNode::Text(t) => xmltree::XMLNode::Text(t.clone()),
        XmlNode::CData(t) => xmltree::XMLNode::CData(t.clone()),
        XmlNode::Comment(t) => xmltree::XMLNode::Comment(t.clone()),
        XmlNode::Instruction(a, b) => xmltree::XMLNode::ProcessingInstruction(a.clone(), b.clone()),
    }
}

} // verus!
