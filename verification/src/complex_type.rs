use vstd::prelude::*;
use crate::annotation::{spec_annotation_list, Annotation, AnnotationView};
use crate::attribute::{spec_attribute_list, Attribute, AttributeView};
use crate::attribute_group::{spec_attribute_group_list, AttributeGroup, AttributeGroupView};
use crate::choice::{spec_choice_list, view_choice, view_choice_seq, Choice, ChoiceView};
use crate::group::{spec_group_list, Group, GroupView};
use crate::sequence::{
    spec_sequence_list, view_sequence, view_sequence_seq, Sequence, SequenceView,
};
use crate::simple_content::{spec_simple_content_list, SimpleContent, SimpleContentView};
use crate::xml_node::{
    child_node, is_tagged, lemma_push_deep_view, spec_attr_or_empty, XmlChild, XmlNode,
};

verus! {

/// A named type aggregating annotations, attributes, attribute groups,
/// simple content, choices, sequences and group references.
#[derive(Debug, Default)]
pub struct ComplexType {
    pub name: String,
    pub annotations: Vec<Annotation>,
    pub attributes: Vec<Attribute>,
    pub attribute_groups: Vec<AttributeGroup>,
    pub simple_content: Vec<SimpleContent>,
    pub choices: Vec<Choice>,
    pub sequences: Vec<Sequence>,
    pub groups: Vec<Group>,
}

/// Mathematical image of `ComplexType`.
pub struct ComplexTypeView {
    pub name: Seq<char>,
    pub annotations: Seq<AnnotationView>,
    pub attributes: Seq<AttributeView>,
    pub attribute_groups: Seq<AttributeGroupView>,
    pub simple_content: Seq<SimpleContentView>,
    pub choices: Seq<ChoiceView>,
    pub sequences: Seq<SequenceView>,
    pub groups: Seq<GroupView>,
}

/// The deep view of a complex type, spelled out recursively.
pub open spec fn view_complex_type(c: ComplexType) -> ComplexTypeView
    decreases c,
{
    ComplexTypeView {
        name: c.name@,
        annotations: c.annotations.deep_view(),
        attributes: c.attributes.deep_view(),
        attribute_groups: c.attribute_groups.deep_view(),
        simple_content: c.simple_content.deep_view(),
        choices: view_choice_seq(c.choices@),
        sequences: view_sequence_seq(c.sequences@),
        groups: c.groups.deep_view(),
    }
}

/// The deep views of a list of complex types, in order.
pub open spec fn view_complex_type_seq(s: Seq<ComplexType>) -> Seq<ComplexTypeView>
    decreases s,
{
    if s.len() == 0 {
        Seq::empty()
    } else {
        view_complex_type_seq(s.drop_last()).push(view_complex_type(s.last()))
    }
}

impl DeepView for ComplexType {
    type V = ComplexTypeView;

    open spec fn deep_view(&self) -> ComplexTypeView {
        view_complex_type(*self)
    }
}

/// The complex type read from `n`: its `name` attribute (empty when
/// absent), then its annotations, attribute declarations, attribute
/// groups, simple contents, choices, sequences and group references,
/// each list in document order.
pub open spec fn spec_complex_type(n: XmlNode) -> ComplexTypeView
    decreases n,
{
    ComplexTypeView {
        name: spec_attr_or_empty(n, "name"@),
        annotations: spec_annotation_list(n.children@),
        attributes: spec_attribute_list(n.children@),
        attribute_groups: spec_attribute_group_list(n.children@),
        simple_content: spec_simple_content_list(n.children@),
        choices: spec_choice_list(n.children@),
        sequences: spec_sequence_list(n.children@),
        groups: spec_group_list(n.children@),
    }
}

/// The complex types read from the `complexType` element children of
/// `cs`, in document order.
pub open spec fn spec_complex_type_list(cs: Seq<XmlChild>) -> Seq<ComplexTypeView>
    decreases cs,
{
    if cs.len() == 0 {
        Seq::empty()
    } else {
        let rest = spec_complex_type_list(cs.drop_last());
        if is_tagged(cs.last(), "complexType"@) {
            rest.push(spec_complex_type(child_node(cs.last())))
        } else {
            rest
        }
    }
}

/// The tag names this builder distinguishes are pairwise different.
proof fn lemma_distinct_tags()
    ensures
        "annotation"@ != "attribute"@,
        "annotation"@ != "attributeGroup"@,
        "annotation"@ != "simpleContent"@,
        "annotation"@ != "choice"@,
        "annotation"@ != "sequence"@,
        "annotation"@ != "group"@,
        "attribute"@ != "attributeGroup"@,
        "attribute"@ != "simpleContent"@,
        "attribute"@ != "choice"@,
        "attribute"@ != "sequence"@,
        "attribute"@ != "group"@,
        "attributeGroup"@ != "simpleContent"@,
        "attributeGroup"@ != "choice"@,
        "attributeGroup"@ != "sequence"@,
        "attributeGroup"@ != "group"@,
        "simpleContent"@ != "choice"@,
        "simpleContent"@ != "sequence"@,
        "simpleContent"@ != "group"@,
        "choice"@ != "sequence"@,
        "choice"@ != "group"@,
        "sequence"@ != "group"@,
{
    reveal_strlit("annotation");
    reveal_strlit("attribute");
    reveal_strlit("attributeGroup");
    reveal_strlit("simpleContent");
    reveal_strlit("choice");
    reveal_strlit("sequence");
    reveal_strlit("group");
    assert("annotation"@.len() == 10);
    assert("attribute"@.len() == 9);
    assert("attributeGroup"@.len() == 14);
    assert("simpleContent"@.len() == 13);
    assert("choice"@.len() == 6);
    assert("sequence"@.len() == 8);
    assert("group"@.len() == 5);
}

impl ComplexType {
    /// Capture the `name` attribute of `node`, then gather its
    /// `annotation`, `attribute`, `attributeGroup`, `simpleContent`,
    /// `choice`, `sequence` and `group` children, each list in document
    /// order.
    pub fn read(node: &XmlNode) -> (r: Self)
        ensures
            r.deep_view() == spec_complex_type(*node),
        decreases *node,
    {
        let mut annotations: Vec<Annotation> = Vec::new();
        let mut attributes: Vec<Attribute> = Vec::new();
        let mut attribute_groups: Vec<AttributeGroup> = Vec::new();
        let mut simple_content: Vec<SimpleContent> = Vec::new();
        let mut choices: Vec<Choice> = Vec::new();
        let mut sequences: Vec<Sequence> = Vec::new();
        let mut groups: Vec<Group> = Vec::new();
        let mut i: usize = 0;
        proof {
            assert(annotations.deep_view() =~= spec_annotation_list(node.children@.take(0)));
            assert(attributes.deep_view() =~= spec_attribute_list(node.children@.take(0)));
            assert(attribute_groups.deep_view() =~= spec_attribute_group_list(
                node.children@.take(0),
            ));
            assert(simple_content.deep_view() =~= spec_simple_content_list(
                node.children@.take(0),
            ));
            assert(view_choice_seq(choices@) =~= spec_choice_list(node.children@.take(0)));
            assert(view_sequence_seq(sequences@) =~= spec_sequence_list(node.children@.take(0)));
            assert(groups.deep_view() =~= spec_group_list(node.children@.take(0)));
        }
        while i < node.children.len()
            invariant
                i <= node.children.len(),
                annotations.deep_view() == spec_annotation_list(node.children@.take(i as int)),
                attributes.deep_view() == spec_attribute_list(node.children@.take(i as int)),
                attribute_groups.deep_view() == spec_attribute_group_list(
                    node.children@.take(i as int),
                ),
                simple_content.deep_view() == spec_simple_content_list(
                    node.children@.take(i as int),
                ),
                view_choice_seq(choices@) == spec_choice_list(node.children@.take(i as int)),
                view_sequence_seq(sequences@) == spec_sequence_list(node.children@.take(i as int)),
                groups.deep_view() == spec_group_list(node.children@.take(i as int)),
            decreases node.children.len() - i,
        {
            proof {
                lemma_distinct_tags();
                assert(node.children@.take(i as int + 1).drop_last() =~= node.children@.take(
                    i as int,
                ));
                assert(node.children@.take(i as int + 1).last() == node.children@[i as int]);
            }
            match &node.children[i] {
                XmlChild::Node(c) => {
                    if c.name_is("annotation") {
                        let ghost pre = annotations;
                        let e = Annotation::read(c);
                        let ghost ge = e;
                        annotations.push(e);
                        proof {
                            lemma_push_deep_view(pre, ge, annotations);
                        }
                    } else if c.name_is("attribute") {
                        let ghost pre = attributes;
                        let e = Attribute::read(c);
                        let ghost ge = e;
                        attributes.push(e);
                        proof {
                            lemma_push_deep_view(pre, ge, attributes);
                        }
                    } else if c.name_is("attributeGroup") {
                        let ghost pre = attribute_groups;
                        let e = AttributeGroup::read(c);
                        let ghost ge = e;
                        attribute_groups.push(e);
                        proof {
                            lemma_push_deep_view(pre, ge, attribute_groups);
                        }
                    } else if c.name_is("simpleContent") {
                        let ghost pre = simple_content;
                        let e = SimpleContent::read(c);
                        let ghost ge = e;
                        simple_content.push(e);
                        proof {
                            lemma_push_deep_view(pre, ge, simple_content);
                        }
                    } else if c.name_is("choice") {
                        let ghost pre = choices@;
                        let e = Choice::read(c);
                        let ghost ge = e;
                        choices.push(e);
                        proof {
                            assert(pre.push(ge).drop_last() =~= pre);
                            assert(view_choice_seq(choices@) == view_choice_seq(pre).push(
                                view_choice(ge),
                            ));
                        }
                    } else if c.name_is("sequence") {
                        let ghost pre = sequences@;
                        let e = Sequence::read(c);
                        let ghost ge = e;
                        sequences.push(e);
                        proof {
                            assert(pre.push(ge).drop_last() =~= pre);
                            assert(view_sequence_seq(sequences@) == view_sequence_seq(pre).push(
                                view_sequence(ge),
                            ));
                        }
                    } else if c.name_is("group") {
                        let ghost pre = groups;
                        let e = Group::read(c);
                        let ghost ge = e;
                        groups.push(e);
                        proof {
                            lemma_push_deep_view(pre, ge, groups);
                        }
                    }
                },
                _ => {},
            }
            i += 1;
        }
        proof {
            assert(node.children@.take(node.children@.len() as int) =~= node.children@);
        }
        ComplexType {
            name: node.attribute_or_empty("name"),
            annotations,
            attributes,
            attribute_groups,
            simple_content,
            choices,
            sequences,
            groups,
        }
    }
}

} // verus!
