use vstd::prelude::*;
use crate::annotation::{spec_annotation_list, Annotation, AnnotationView};
use crate::attribute::{spec_attribute_list, Attribute, AttributeView};
use crate::attribute_group::{spec_attribute_group_list, AttributeGroup, AttributeGroupView};
use crate::extension::{spec_extension_list, Extension, ExtensionView};
use crate::xml_node::{
    child_node, is_tagged, lemma_push_deep_view, spec_attr_or_empty, XmlChild, XmlNode,
};

verus! {

/// Text-only complex-type content: zero or more extensions with their own
/// annotations, attributes and attribute groups.
#[derive(Debug, Default)]
pub struct SimpleContent {
    pub base: String,
    pub annotations: Vec<Annotation>,
    pub attributes: Vec<Attribute>,
    pub attribute_groups: Vec<AttributeGroup>,
    pub extensions: Vec<Extension>,
}

/// Mathematical image of `SimpleContent`.
pub struct SimpleContentView {
    pub base: Seq<char>,
    pub annotations: Seq<AnnotationView>,
    pub attributes: Seq<AttributeView>,
    pub attribute_groups: Seq<AttributeGroupView>,
    pub extensions: Seq<ExtensionView>,
}

impl DeepView for SimpleContent {
    type V = SimpleContentView;

    open spec fn deep_view(&self) -> SimpleContentView {
        SimpleContentView {
            base: self.base@,
            annotations: self.annotations.deep_view(),
            attributes: self.attributes.deep_view(),
            attribute_groups: self.attribute_groups.deep_view(),
            extensions: self.extensions.deep_view(),
        }
    }
}

/// The simple content read from `n`: its `base` attribute (empty when
/// absent), then its annotations, attribute declarations, attribute
/// groups and extensions, each list in document order.
pub open spec fn spec_simple_content(n: XmlNode) -> SimpleContentView {
    SimpleContentView {
        base: spec_attr_or_empty(n, "base"@),
        annotations: spec_annotation_list(n.children@),
        attributes: spec_attribute_list(n.children@),
        attribute_groups: spec_attribute_group_list(n.children@),
        extensions: spec_extension_list(n.children@),
    }
}

/// The simple contents read from the `simpleContent` element children of
/// `cs`, in document order.
pub open spec fn spec_simple_content_list(cs: Seq<XmlChild>) -> Seq<SimpleContentView>
    decreases cs,
{
    if cs.len() == 0 {
        Seq::empty()
    } else {
        let rest = spec_simple_content_list(cs.drop_last());
        if is_tagged(cs.last(), "simpleContent"@) {
            rest.push(spec_simple_content(child_node(cs.last())))
        } else {
            rest
        }
    }
}

/// The tag names this builder distinguishes are pairwise different.
proof fn lemma_distinct_tags()
    ensures
        "annotation"@ != "attribute"@,
        "annotation"@ != "attributeGroup"@,
        "annotation"@ != "extension"@,
        "attribute"@ != "attributeGroup"@,
        "attribute"@ != "extension"@,
        "attributeGroup"@ != "extension"@,
{
    reveal_strlit("annotation");
    reveal_strlit("attribute");
    reveal_strlit("attributeGroup");
    reveal_strlit("extension");
    assert("annotation"@.len() == 10);
    assert("attribute"@.len() == 9);
    assert("attributeGroup"@.len() == 14);
    assert("extension"@.len() == 9);
    assert("attribute"@.index(0) == 'a');
    assert("extension"@.index(0) == 'e');
}

impl SimpleContent {
    /// Capture the `base` attribute of `node`, then gather its
    /// `annotation`, `attribute`, `attributeGroup` and `extension`
    /// children, each list in document order.
    pub fn read(node: &XmlNode) -> (r: Self)
        ensures
            r.deep_view() == spec_simple_content(*node),
    {
        let mut annotations: Vec<Annotation> = Vec::new();
        let mut attributes: Vec<Attribute> = Vec::new();
        let mut attribute_groups: Vec<AttributeGroup> = Vec::new();
        let mut extensions: Vec<Extension> = Vec::new();
        let mut i: usize = 0;
        proof {
            assert(annotations.deep_view() =~= spec_annotation_list(node.children@.take(0)));
            assert(attributes.deep_view() =~= spec_attribute_list(node.children@.take(0)));
            assert(attribute_groups.deep_view() =~= spec_attribute_group_list(
                node.children@.take(0),
            ));
            assert(extensions.deep_view() =~= spec_extension_list(node.children@.take(0)));
        }
        while i < node.children.len()
            invariant
                i <= node.children.len(),
                annotations.deep_view() == spec_annotation_list(node.children@.take(i as int)),
                attributes.deep_view() == spec_attribute_list(node.children@.take(i as int)),
                attribute_groups.deep_view() == spec_attribute_group_list(
                    node.children@.take(i as int),
                ),
                extensions.deep_view() == spec_extension_list(node.children@.take(i as int)),
            decreases node.children.len() - i,
        {
            proof {
                lemma_distinct_tags();
                assert(node.children@.take(i as int + 1).drop_last() =~= node.children@.take(
                    i as int,
                ));
                assert(node.children@.take(i as int + 1).last() == node.children@[i as int]);
            }
            match &node.children[i] {
                XmlChild::Node(c) => {
                    if c.name_is("annotation") {
                        let ghost pre = annotations;
                        let e = Annotation::read(c);
                        let ghost ge = e;
                        annotations.push(e);
                        proof {
                            lemma_push_deep_view(pre, ge, annotations);
                        }
                    } else if c.name_is("attribute") {
                        let ghost pre = attributes;
                        let e = Attribute::read(c);
                        let ghost ge = e;
                        attributes.push(e);
                        proof {
                            lemma_push_deep_view(pre, ge, attributes);
                        }
                    } else if c.name_is("attributeGroup") {
                        let ghost pre = attribute_groups;
                        let e = AttributeGroup::read(c);
                        let ghost ge = e;
                        attribute_groups.push(e);
                        proof {
                            lemma_push_deep_view(pre, ge, attribute_groups);
                        }
                    } else if c.name_is("extension") {
                        let ghost pre = extensions;
                        let e = Extension::read(c);
                        let ghost ge = e;
                        extensions.push(e);
                        proof {
                            lemma_push_deep_view(pre, ge, extensions);
                        }
                    }
                },
                _ => {},
            }
            i += 1;
        }
        proof {
            assert(node.children@.take(node.children@.len() as int) =~= node.children@);
        }
        SimpleContent {
            base: node.attribute_or_empty("base"),
            annotations,
            attributes,
            attribute_groups,
            extensions,
        }
    }
}

} // verus!
