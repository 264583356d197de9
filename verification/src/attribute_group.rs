use vstd::prelude::*;
use crate::annotation::{spec_annotation_list, Annotation, AnnotationView};
use crate::attribute::{spec_attribute_list, Attribute, AttributeView};
use crate::xml_node::{
    child_node, is_tagged, lemma_push_deep_view, spec_attr, spec_attr_or_empty, XmlChild, XmlNode,
};

verus! {

/// A named or referenced bundle of attribute declarations, recursively
/// containing nested attribute groups. Names and references are unresolved
/// identifiers.
#[derive(Debug, Default)]
pub struct AttributeGroup {
    pub name: String,
    pub reference: Option<String>,
    pub annotations: Vec<Annotation>,
    pub attributes: Vec<Attribute>,
    pub attribute_groups: Vec<AttributeGroup>,
}

/// Mathematical image of `AttributeGroup`.
pub struct AttributeGroupView {
    pub name: Seq<char>,
    pub reference: Option<Seq<char>>,
    pub annotations: Seq<AnnotationView>,
    pub attributes: Seq<AttributeView>,
    pub attribute_groups: Seq<AttributeGroupView>,
}

/// The deep view of an attribute group, spelled out recursively.
pub open spec fn view_attribute_group(a: AttributeGroup) -> AttributeGroupView
    decreases a,
{
    AttributeGroupView {
        name: a.name@,
        reference: a.reference.deep_view(),
        annotations: a.annotations.deep_view(),
        attributes: a.attributes.deep_view(),
        attribute_groups: view_attribute_group_seq(a.attribute_groups@),
    }
}

/// The deep views of a list of attribute groups, in order.
pub open spec fn view_attribute_group_seq(s: Seq<AttributeGroup>) -> Seq<AttributeGroupView>
    decreases s,
{
    if s.len() == 0 {
        Seq::empty()
    } else {
        view_attribute_group_seq(s.drop_last()).push(view_attribute_group(s.last()))
    }
}

impl DeepView for AttributeGroup {
    type V = AttributeGroupView;

    open spec fn deep_view(&self) -> AttributeGroupView {
        view_attribute_group(*self)
    }
}

/// The attribute group read from `n`: its `name` (empty when absent) and
/// `ref` attributes, then its annotations, attribute declarations and
/// nested attribute groups, each list in document order.
pub open spec fn spec_attribute_group(n: XmlNode) -> AttributeGroupView
    decreases n,
{
    AttributeGroupView {
        name: spec_attr_or_empty(n, "name"@),
        reference: spec_attr(n, "ref"@),
        annotations: spec_annotation_list(n.children@),
        attributes: spec_attribute_list(n.children@),
        attribute_groups: spec_attribute_group_list(n.children@),
    }
}

/// The attribute groups read from the `attributeGroup` element children of
/// `cs`, in document order.
pub open spec fn spec_attribute_group_list(cs: Seq<XmlChild>) -> Seq<AttributeGroupView>
    decreases cs,
{
    if cs.len() == 0 {
        Seq::empty()
    } else {
        let rest = spec_attribute_group_list(cs.drop_last());
        if is_tagged(cs.last(), "attributeGroup"@) {
            rest.push(spec_attribute_group(child_node(cs.last())))
        } else {
            rest
        }
    }
}

/// The tag names this builder distinguishes are pairwise different.
proof fn lemma_distinct_tags()
    ensures
        "annotation"@ != "attribute"@,
        "annotation"@ != "attributeGroup"@,
        "attribute"@ != "attributeGroup"@,
{
    reveal_strlit("annotation");
    reveal_strlit("attribute");
    reveal_strlit("attributeGroup");
    assert("annotation"@.len() == 10);
    assert("attribute"@.len() == 9);
    assert("attributeGroup"@.len() == 14);
}

impl AttributeGroup {
    /// Capture the `name` and `ref` attributes of `node`, then gather its
    /// `annotation`, `attribute` and `attributeGroup` children, each list
    /// in document order.
    pub fn read(node: &XmlNode) -> (r: Self)
        ensures
            r.deep_view() == spec_attribute_group(*node),
        decreases *node,
    {
        let mut annotations: Vec<Annotation> = Vec::new();
        let mut attributes: Vec<Attribute> = Vec::new();
        let mut attribute_groups: Vec<AttributeGroup> = Vec::new();
        let mut i: usize = 0;
        proof {
            assert(annotations.deep_view() =~= spec_annotation_list(node.children@.take(0)));
            assert(attributes.deep_view() =~= spec_attribute_list(node.children@.take(0)));
            assert(view_attribute_group_seq(attribute_groups@) =~= spec_attribute_group_list(
                node.children@.take(0),
            ));
        }
        while i < node.children.len()
            invariant
                i <= node.children.len(),
                annotations.deep_view() == spec_annotation_list(node.children@.take(i as int)),
                attributes.deep_view() == spec_attribute_list(node.children@.take(i as int)),
                view_attribute_group_seq(attribute_groups@) == spec_attribute_group_list(
                    node.children@.take(i as int),
                ),
            decreases node.children.len() - i,
        {
            proof {
                lemma_distinct_tags();
                assert(node.children@.take(i as int + 1).drop_last() =~= node.children@.take(
                    i as int,
                ));
                assert(node.children@.take(i as int + 1).last() == node.children@[i as int]);
            }
            match &node.children[i] {
                XmlChild::Node(c) => {
                    if c.name_is("annotation") {
                        let ghost pre = annotations;
                        let e = Annotation::read(c);
                        let ghost ge = e;
                        annotations.push(e);
                        proof {
                            lemma_push_deep_view(pre, ge, annotations);
                        }
                    } else if c.name_is("attribute") {
                        let ghost pre = attributes;
                        let e = Attribute::read(c);
                        let ghost ge = e;
                        attributes.push(e);
                        proof {
                            lemma_push_deep_view(pre, ge, attributes);
                        }
                    } else if c.name_is("attributeGroup") {
                        let ghost pre = attribute_groups@;
                        let e = AttributeGroup::read(c);
                        let ghost ge = e;
                        attribute_groups.push(e);
                        proof {
                            assert(pre.push(ge).drop_last() =~= pre);
                            assert(view_attribute_group_seq(attribute_groups@)
                                == view_attribute_group_seq(pre).push(view_attribute_group(ge)));
                        }
                    }
                },
                _ => {},
            }
            i += 1;
        }
        proof {
            assert(node.children@.take(node.children@.len() as int) =~= node.children@);
        }
        AttributeGroup {
            name: node.attribute_or_empty("name"),
            reference: node.attribute("ref"),
            annotations,
            attributes,
            attribute_groups,
        }
    }
}

} // verus!
