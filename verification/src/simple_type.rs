use vstd::prelude::*;
use crate::annotation::{spec_annotation_list, Annotation, AnnotationView};
use crate::restriction::{spec_restriction, Restriction, RestrictionView};
use crate::union::{spec_union, view_union, Union, UnionView};
use crate::xml_node::{
    child_node, is_tagged, lemma_push_deep_view, spec_attr_or_empty, XmlChild, XmlNode,
};

verus! {

/// A named type defined by at most one of a restriction or a union; both
/// may be absent, which is tolerated rather than an error.
#[derive(Debug, Default)]
pub struct SimpleType {
    /// The name of the type as found inside the schema definition.
    pub name: String,
    /// Annotations, usually documentation.
    pub annotations: Vec<Annotation>,
    pub restriction: Option<Restriction>,
    pub union: Option<Union>,
}

/// Mathematical image of `SimpleType`.
pub struct SimpleTypeView {
    pub name: Seq<char>,
    pub annotations: Seq<AnnotationView>,
    pub restriction: Option<RestrictionView>,
    pub union: Option<UnionView>,
}

/// The deep view of a simple type, spelled out recursively.
pub open spec fn view_simple_type(t: SimpleType) -> SimpleTypeView
    decreases t,
{
    SimpleTypeView {
        name: t.name@,
        annotations: t.annotations.deep_view(),
        restriction: t.restriction.deep_view(),
        union: view_union_opt(t.union),
    }
}

/// The deep view of an optional union.
pub open spec fn view_union_opt(o: Option<Union>) -> Option<UnionView>
    decreases o,
{
    match o {
        Some(u) => Some(view_union(u)),
        None => None,
    }
}

/// The deep views of a list of simple types, in order.
pub open spec fn view_simple_type_seq(s: Seq<SimpleType>) -> Seq<SimpleTypeView>
    decreases s,
{
    if s.len() == 0 {
        Seq::empty()
    } else {
        view_simple_type_seq(s.drop_last()).push(view_simple_type(s.last()))
    }
}

impl DeepView for SimpleType {
    type V = SimpleTypeView;

    open spec fn deep_view(&self) -> SimpleTypeView {
        view_simple_type(*self)
    }
}

/// The restriction kept from the `restriction` element children of `cs`:
/// the last one in document order wins; absent when there is none.
pub open spec fn spec_restriction_opt(cs: Seq<XmlChild>) -> Option<RestrictionView>
    decreases cs.len(),
{
    if cs.len() == 0 {
        None
    } else if is_tagged(cs.last(), "restriction"@) {
        Some(spec_restriction(child_node(cs.last())))
    } else {
        spec_restriction_opt(cs.drop_last())
    }
}

/// The union kept from the `union` element children of `cs`: the last one
/// in document order wins; absent when there is none.
pub open spec fn spec_union_opt(cs: Seq<XmlChild>) -> Option<UnionView>
    decreases cs,
{
    if cs.len() == 0 {
        None
    } else if is_tagged(cs.last(), "union"@) {
        Some(spec_union(child_node(cs.last())))
    } else {
        spec_union_opt(cs.drop_last())
    }
}

/// The simple type read from `n`: its `name` attribute (empty when
/// absent), its annotations in document order, and its restriction and
/// union, each the last of its tag when several appear.
pub open spec fn spec_simple_type(n: XmlNode) -> SimpleTypeView
    decreases n,
{
    SimpleTypeView {
        name: spec_attr_or_empty(n, "name"@),
        annotations: spec_annotation_list(n.children@),
        restriction: spec_restriction_opt(n.children@),
        union: spec_union_opt(n.children@),
    }
}

/// The simple types read from the `simpleType` element children of `cs`,
/// in document order.
pub open spec fn spec_simple_type_list(cs: Seq<XmlChild>) -> Seq<SimpleTypeView>
    decreases cs,
{
    if cs.len() == 0 {
        Seq::empty()
    } else {
        let rest = spec_simple_type_list(cs.drop_last());
        if is_tagged(cs.last(), "simpleType"@) {
            rest.push(spec_simple_type(child_node(cs.last())))
        } else {
            rest
        }
    }
}

/// The tag names this builder distinguishes are pairwise different.
proof fn lemma_distinct_tags()
    ensures
        "annotation"@ != "restriction"@,
        "annotation"@ != "union"@,
        "restriction"@ != "union"@,
{
    reveal_strlit("annotation");
    reveal_strlit("restriction");
    reveal_strlit("union");
    assert("annotation"@.len() == 10);
    assert("restriction"@.len() == 11);
    assert("union"@.len() == 5);
}

impl SimpleType {
    /// Capture the `name` attribute of `node`, then gather its
    /// `annotation` children and keep the last of its `restriction` and
    /// `union` children, if any.
    pub fn read(node: &XmlNode) -> (r: Self)
        ensures
            r.deep_view() == spec_simple_type(*node),
        decreases *node,
    {
        let mut annotations: Vec<Annotation> = Vec::new();
        let mut restriction: Option<Restriction> = None;
        let mut uni: Option<Union> = None;
        let mut i: usize = 0;
        proof {
            assert(annotations.deep_view() =~= spec_annotation_list(node.children@.take(0)));
        }
        while i < node.children.len()
            invariant
                i <= node.children.len(),
                annotations.deep_view() == spec_annotation_list(node.children@.take(i as int)),
                restriction.deep_view() == spec_restriction_opt(node.children@.take(i as int)),
                view_union_opt(uni) == spec_union_opt(node.children@.take(i as int)),
            decreases node.children.len() - i,
        {
            proof {
                lemma_distinct_tags();
                assert(node.children@.take(i as int + 1).drop_last() =~= node.children@.take(
                    i as int,
                ));
                assert(node.children@.take(i as int + 1).last() == node.children@[i as int]);
            }
            match &node.children[i] {
                XmlChild::Node(c) => {
                    if c.name_is("annotation") {
                        let ghost pre = annotations;
                        let e = Annotation::read(c);
                        let ghost ge = e;
                        annotations.push(e);
                        proof {
                            lemma_push_deep_view(pre, ge, annotations);
                        }
                    } else if c.name_is("restriction") {
                        restriction = Some(Restriction::read(c));
                    } else if c.name_is("union") {
                        uni = Some(Union::read(c));
                    }
                },
                _ => {},
            }
            i += 1;
        }
        proof {
            assert(node.children@.take(node.children@.len() as int) =~= node.children@);
        }
        SimpleType { name: node.attribute_or_empty("name"), annotations, restriction, union: uni }
    }
}

} // verus!
