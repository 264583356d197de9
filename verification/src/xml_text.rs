use vstd::prelude::*;
use crate::xml_node::{XmlChild, XmlNode};

verus! {

#[verifier::external_type_specification]
#[verifier::external_body]
pub struct ExTreeNode(xmltree::XMLNode);

/// Whether a piece of text is well-formed XML with a root element, as the
/// parser of the xmltree crate decides it; the outcome depends on the
/// text alone.
pub uninterp spec fn well_formed_xml(s: Seq<char>) -> bool;

/// The tree that well-formed text parses to. It is a function of the text
/// alone: xmltree's parser is configured by nothing else, and with its
/// sorted attribute map the attribute order is fixed by the keys.
pub uninterp spec fn parsed_tree(s: Seq<char>) -> XmlNode;

/// Relies on the variants of xmltree::XMLNode and the public fields of
/// its element variant: each node is carried over one for one, moving
/// the local name, the attribute map entries in their sorted order, and
/// the children.
#[verifier::external_body]
fn child_from_tree(c: xmltree::XMLNode) -> XmlChild {
    match c {
        xmltree::XMLNode::Element(e) => XmlChild::Node(XmlNode {
            name: e.name,
            attributes: e.attributes.into_iter().collect(),
            children: e.children.into_iter().map(child_from_tree).collect(),
        }),
        xmltree::XMLNode::Comment(t) => XmlChild::Comment(t),
        xmltree::XMLNode::CData(t) => XmlChild::CData(t),
        xmltree::XMLNode::Text(t) => XmlChild::Text(t),
        xmltree::XMLNode::ProcessingInstruction(n, d) => XmlChild::ProcessingInstruction(n, d),
    }
}

/// Relies on xmltree's parse: it returns the root element exactly when
/// the text is well-formed XML, and a parse error otherwise, and what it
/// returns depends on the text alone.
#[verifier::external_body]
pub(crate) fn parse_tree(xml: &str) -> (r: Result<XmlNode, String>)
    ensures
        r is Ok <==> well_formed_xml(xml@),
        r matches Ok(n) ==> n == parsed_tree(xml@),
{
    match xmltree::Element::parse(xml.as_bytes()) {
        Ok(e) => Ok(XmlNode {
            name: e.name,
            attributes: e.attributes.into_iter().collect(),
            children: e.children.into_iter().map(child_from_tree).collect(),
        }),
        Err(err) => Err(format!("Could not parse xml file. Error: {:?}", err)),
    }
}

} // verus!
