use vstd::prelude::*;
use crate::element::{spec_element_list, view_element, view_element_seq, Element, ElementView};
use crate::group::{spec_group_list, Group, GroupView};
use crate::xml_node::{child_node, is_tagged, lemma_push_deep_view, XmlChild, XmlNode};

verus! {

/// An ordered particle group of element particles and group references.
#[derive(Debug, Default)]
pub struct Sequence {
    pub elements: Vec<Element>,
    pub groups: Vec<Group>,
}

/// Mathematical image of `Sequence`.
pub struct SequenceView {
    pub elements: Seq<ElementView>,
    pub groups: Seq<GroupView>,
}

/// The deep view of a sequence particle, spelled out recursively.
pub open spec fn view_sequence(s: Sequence) -> SequenceView
    decreases s,
{
    SequenceView { elements: view_element_seq(s.elements@), groups: s.groups.deep_view() }
}

/// The deep views of a list of sequence particles, in order.
pub open spec fn view_sequence_seq(s: Seq<Sequence>) -> Seq<SequenceView>
    decreases s,
{
    if s.len() == 0 {
        Seq::empty()
    } else {
        view_sequence_seq(s.drop_last()).push(view_sequence(s.last()))
    }
}

impl DeepView for Sequence {
    type V = SequenceView;

    open spec fn deep_view(&self) -> SequenceView {
        view_sequence(*self)
    }
}

/// The sequence read from `n`: its `element` children and its `group`
/// children, each list in document order.
pub open spec fn spec_sequence(n: XmlNode) -> SequenceView
    decreases n,
{
    SequenceView {
        elements: spec_element_list(n.children@),
        groups: spec_group_list(n.children@),
    }
}

/// The sequences read from the `sequence` element children of `cs`, in
/// document order.
pub open spec fn spec_sequence_list(cs: Seq<XmlChild>) -> Seq<SequenceView>
    decreases cs,
{
    if cs.len() == 0 {
        Seq::empty()
    } else {
        let rest = spec_sequence_list(cs.drop_last());
        if is_tagged(cs.last(), "sequence"@) {
            rest.push(spec_sequence(child_node(cs.last())))
        } else {
            rest
        }
    }
}

/// The tag names this builder distinguishes are pairwise different.
proof fn lemma_distinct_tags()
    ensures
        "element"@ != "group"@,
{
    reveal_strlit("element");
    reveal_strlit("group");
    assert("element"@.len() == 7);
    assert("group"@.len() == 5);
}

impl Sequence {
    /// Gather the `element` and `group` children of `node`, each list in
    /// document order.
    pub fn read(node: &XmlNode) -> (r: Self)
        ensures
            r.deep_view() == spec_sequence(*node),
        decreases *node,
    {
        let mut elements: Vec<Element> = Vec::new();
        let mut groups: Vec<Group> = Vec::new();
        let mut i: usize = 0;
        proof {
            assert(view_element_seq(elements@) =~= spec_element_list(node.children@.take(0)));
            assert(groups.deep_view() =~= spec_group_list(node.children@.take(0)));
        }
        while i < node.children.len()
            invariant
                i <= node.children.len(),
                view_element_seq(elements@) == spec_element_list(node.children@.take(i as int)),
                groups.deep_view() == spec_group_list(node.children@.take(i as int)),
            decreases node.children.len() - i,
        {
            proof {
                lemma_distinct_tags();
                assert(node.children@.take(i as int + 1).drop_last() =~= node.children@.take(
                    i as int,
                ));
                assert(node.children@.take(i as int + 1).last() == node.children@[i as int]);
            }
            match &node.children[i] {
                XmlChild::Node(c) => {
                    if c.name_is("element") {
                        let ghost pre = elements@;
                        let e = Element::read(c);
                        let ghost ge = e;
                        elements.push(e);
                        proof {
                            assert(pre.push(ge).drop_last() =~= pre);
                            assert(view_element_seq(elements@) == view_element_seq(pre).push(
                                view_element(ge),
                            ));
                        }
                    } else if c.name_is("group") {
                        let ghost pre = groups;
                        let e = Group::read(c);
                        let ghost ge = e;
                        groups.push(e);
                        proof {
                            lemma_push_deep_view(pre, ge, groups);
                        }
                    }
                },
                _ => {},
            }
            i += 1;
        }
        proof {
            assert(node.children@.take(node.children@.len() as int) =~= node.children@);
        }
        Sequence { elements, groups }
    }
}

} // verus!
