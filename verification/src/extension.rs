use vstd::prelude::*;
use crate::attribute::{spec_attribute_list, Attribute, AttributeView};
use crate::attribute_group::{spec_attribute_group_list, AttributeGroup, AttributeGroupView};
use crate::xml_node::{
    child_node, is_tagged, lemma_push_deep_view, spec_attr_or_empty, XmlChild, XmlNode,
};

verus! {

/// A simple-content extension: a base type plus additional attributes and
/// attribute groups.
#[derive(Debug, Default)]
pub struct Extension {
    pub base: String,
    pub attributes: Vec<Attribute>,
    pub attribute_groups: Vec<AttributeGroup>,
}

/// Mathematical image of `Extension`.
pub struct ExtensionView {
    pub base: Seq<char>,
    pub attributes: Seq<AttributeView>,
    pub attribute_groups: Seq<AttributeGroupView>,
}

impl DeepView for Extension {
    type V = ExtensionView;

    open spec fn deep_view(&self) -> ExtensionView {
        ExtensionView {
            base: self.base@,
            attributes: self.attributes.deep_view(),
            attribute_groups: self.attribute_groups.deep_view(),
        }
    }
}

/// The extension read from `n`: its `base` attribute (empty when absent),
/// then its attribute declarations and attribute groups, each list in
/// document order.
pub open spec fn spec_extension(n: XmlNode) -> ExtensionView {
    ExtensionView {
        base: spec_attr_or_empty(n, "base"@),
        attributes: spec_attribute_list(n.children@),
        attribute_groups: spec_attribute_group_list(n.children@),
    }
}

/// The extensions read from the `extension` element children of `cs`, in
/// document order.
pub open spec fn spec_extension_list(cs: Seq<XmlChild>) -> Seq<ExtensionView>
    decreases cs,
{
    if cs.len() == 0 {
        Seq::empty()
    } else {
        let rest = spec_extension_list(cs.drop_last());
        if is_tagged(cs.last(), "extension"@) {
            rest.push(spec_extension(child_node(cs.last())))
        } else {
            rest
        }
    }
}

/// The tag names this builder distinguishes are pairwise different.
proof fn lemma_distinct_tags()
    ensures
        "attribute"@ != "attributeGroup"@,
{
    reveal_strlit("attribute");
    reveal_strlit("attributeGroup");
    assert("attribute"@.len() == 9);
    assert("attributeGroup"@.len() == 14);
}

impl Extension {
    /// Capture the `base` attribute of `node`, then gather its `attribute`
    /// and `attributeGroup` children, each list in document order.
    pub fn read(node: &XmlNode) -> (r: Self)
        ensures
            r.deep_view() == spec_extension(*node),
    {
        let mut attributes: Vec<Attribute> = Vec::new();
        let mut attribute_groups: Vec<AttributeGroup> = Vec::new();
        let mut i: usize = 0;
        proof {
            assert(attributes.deep_view() =~= spec_attribute_list(node.children@.take(0)));
            assert(attribute_groups.deep_view() =~= spec_attribute_group_list(
                node.children@.take(0),
            ));
        }
        while i < node.children.len()
            invariant
                i <= node.children.len(),
                attributes.deep_view() == spec_attribute_list(node.children@.take(i as int)),
                attribute_groups.deep_view() == spec_attribute_group_list(
                    node.children@.take(i as int),
                ),
            decreases node.children.len() - i,
        {
            proof {
                lemma_distinct_tags();
                assert(node.children@.take(i as int + 1).drop_last() =~= node.children@.take(
                    i as int,
                ));
                assert(node.children@.take(i as int + 1).last() == node.children@[i as int]);
            }
            match &node.children[i] {
                XmlChild::Node(c) => {
                    if c.name_is("attribute") {
                        let ghost pre = attributes;
                        let e = Attribute::read(c);
                        let ghost ge = e;
                        attributes.push(e);
                        proof {
                            lemma_push_deep_view(pre, ge, attributes);
                        }
                    } else if c.name_is("attributeGroup") {
                        let ghost pre = attribute_groups;
                        let e = AttributeGroup::read(c);
                        let ghost ge = e;
                        attribute_groups.push(e);
                        proof {
                            lemma_push_deep_view(pre, ge, attribute_groups);
                        }
                    }
                },
                _ => {},
            }
            i += 1;
        }
        proof {
            assert(node.children@.take(node.children@.len() as int) =~= node.children@);
        }
        Extension { base: node.attribute_or_empty("base"), attributes, attribute_groups }
    }
}

} // verus!
