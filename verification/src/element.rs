use vstd::prelude::*;
use crate::annotation::{spec_annotation_list, Annotation, AnnotationView};
use crate::complex_type::{
    spec_complex_type_list, view_complex_type, view_complex_type_seq, ComplexType, ComplexTypeView,
};
use crate::occurs_attributes::{spec_occurs, Occurs, OccursView};
use crate::xml_node::{
    child_node, is_tagged, lemma_push_deep_view, spec_attr_or_empty, XmlChild, XmlNode,
};

verus! {

/// A particle with a name and type, cardinality markers, documentation,
/// and optionally inline anonymous complex types.
#[derive(Debug, Default)]
pub struct Element {
    pub name: String,
    pub type_: String,
    pub annotations: Vec<Annotation>,
    pub occurs: Vec<Occurs>,
    pub complex_types: Vec<ComplexType>,
}

/// Mathematical image of `Element`.
pub struct ElementView {
    pub name: Seq<char>,
    pub type_: Seq<char>,
    pub annotations: Seq<AnnotationView>,
    pub occurs: Seq<OccursView>,
    pub complex_types: Seq<ComplexTypeView>,
}

/// The deep view of an element particle, spelled out recursively.
pub open spec fn view_element(e: Element) -> ElementView
    decreases e,
{
    ElementView {
        name: e.name@,
        type_: e.type_@,
        annotations: e.annotations.deep_view(),
        occurs: e.occurs.deep_view(),
        complex_types: view_complex_type_seq(e.complex_types@),
    }
}

/// The deep views of a list of element particles, in order.
pub open spec fn view_element_seq(s: Seq<Element>) -> Seq<ElementView>
    decreases s,
{
    if s.len() == 0 {
        Seq::empty()
    } else {
        view_element_seq(s.drop_last()).push(view_element(s.last()))
    }
}

impl DeepView for Element {
    type V = ElementView;

    open spec fn deep_view(&self) -> ElementView {
        view_element(*self)
    }
}

/// The element particle read from `n`: its `name` and `type` attributes
/// (each empty when absent), its cardinality markers, and its
/// `annotation` and inline `complexType` children, each list in document
/// order.
pub open spec fn spec_element(n: XmlNode) -> ElementView
    decreases n,
{
    ElementView {
        name: spec_attr_or_empty(n, "name"@),
        type_: spec_attr_or_empty(n, "type"@),
        annotations: spec_annotation_list(n.children@),
        occurs: spec_occurs(n),
        complex_types: spec_complex_type_list(n.children@),
    }
}

/// The element particles read from the `element` element children of
/// `cs`, in document order.
pub open spec fn spec_element_list(cs: Seq<XmlChild>) -> Seq<ElementView>
    decreases cs,
{
    if cs.len() == 0 {
        Seq::empty()
    } else {
        let rest = spec_element_list(cs.drop_last());
        if is_tagged(cs.last(), "element"@) {
            rest.push(spec_element(child_node(cs.last())))
        } else {
            rest
        }
    }
}

/// The tag names this builder distinguishes are pairwise different.
proof fn lemma_distinct_tags()
    ensures
        "annotation"@ != "complexType"@,
{
    reveal_strlit("annotation");
    reveal_strlit("complexType");
    assert("annotation"@.len() == 10);
    assert("complexType"@.len() == 11);
}

impl Element {
    /// Capture the cardinality markers and the `name` and `type`
    /// attributes of `node`, and gather its `annotation` and inline
    /// `complexType` children, each list in document order.
    pub fn read(node: &XmlNode) -> (r: Self)
        ensures
            r.deep_view() == spec_element(*node),
        decreases *node,
    {
        let occurs = Occurs::read(node);
        let mut annotations: Vec<Annotation> = Vec::new();
        let mut complex_types: Vec<ComplexType> = Vec::new();
        let mut i: usize = 0;
        proof {
            assert(annotations.deep_view() =~= spec_annotation_list(node.children@.take(0)));
            assert(view_complex_type_seq(complex_types@) =~= spec_complex_type_list(
                node.children@.take(0),
            ));
        }
        while i < node.children.len()
            invariant
                i <= node.children.len(),
                annotations.deep_view() == spec_annotation_list(node.children@.take(i as int)),
                view_complex_type_seq(complex_types@) == spec_complex_type_list(
                    node.children@.take(i as int),
                ),
            decreases node.children.len() - i,
        {
            proof {
                lemma_distinct_tags();
                assert(node.children@.take(i as int + 1).drop_last() =~= node.children@.take(
                    i as int,
                ));
                assert(node.children@.take(i as int + 1).last() == node.children@[i as int]);
            }
            match &node.children[i] {
                XmlChild::Node(c) => {
                    if c.name_is("annotation") {
                        let ghost pre = annotations;
                        let e = Annotation::read(c);
                        let ghost ge = e;
                        annotations.push(e);
                        proof {
                            lemma_push_deep_view(pre, ge, annotations);
                        }
                    } else if c.name_is("complexType") {
                        let ghost pre = complex_types@;
                        let e = ComplexType::read(c);
                        let ghost ge = e;
                        complex_types.push(e);
                        proof {
                            assert(pre.push(ge).drop_last() =~= pre);
                            assert(view_complex_type_seq(complex_types@) == view_complex_type_seq(
                                pre,
                            ).push(view_complex_type(ge)));
                        }
                    }
                },
                _ => {},
            }
            i += 1;
        }
        proof {
            assert(node.children@.take(node.children@.len() as int) =~= node.children@);
        }
        Element {
            name: node.attribute_or_empty("name"),
            type_: node.attribute_or_empty("type"),
            annotations,
            occurs,
            complex_types,
        }
    }
}

} // verus!
