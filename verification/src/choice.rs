use vstd::prelude::*;
use crate::element::{spec_element, view_element, Element, ElementView};
use crate::occurs_attributes::{spec_occurs, Occurs, OccursView};
use crate::sequence::{spec_sequence, view_sequence, Sequence, SequenceView};
use crate::xml_node::{child_node, is_tagged, XmlChild, XmlNode};

verus! {

/// One alternative of a choice: exactly one of an element particle, a
/// nested choice, or a nested sequence.
#[derive(Debug)]
pub enum ChoiceItems {
    Element(Element),
    Choice(Choice),
    Sequence(Sequence),
}

/// Mathematical image of `ChoiceItems`.
pub enum ChoiceItemsView {
    Element(ElementView),
    Choice(ChoiceView),
    Sequence(SequenceView),
}

/// A particle group where exactly one of its ordered alternatives
/// applies; self-recursive.
#[derive(Debug, Default)]
pub struct Choice {
    pub occurs: Vec<Occurs>,
    pub elements: Vec<ChoiceItems>,
}

/// Mathematical image of `Choice`.
pub struct ChoiceView {
    pub occurs: Seq<OccursView>,
    pub elements: Seq<ChoiceItemsView>,
}

/// The deep view of a choice alternative, spelled out recursively.
pub open spec fn view_choice_items(ci: ChoiceItems) -> ChoiceItemsView
    decreases ci,
{
    match ci {
        ChoiceItems::Element(e) => ChoiceItemsView::Element(view_element(e)),
        ChoiceItems::Choice(c) => ChoiceItemsView::Choice(view_choice(c)),
        ChoiceItems::Sequence(s) => ChoiceItemsView::Sequence(view_sequence(s)),
    }
}

/// The deep views of a list of choice alternatives, in order.
pub open spec fn view_choice_items_seq(s: Seq<ChoiceItems>) -> Seq<ChoiceItemsView>
    decreases s,
{
    if s.len() == 0 {
        Seq::empty()
    } else {
        view_choice_items_seq(s.drop_last()).push(view_choice_items(s.last()))
    }
}

/// The deep view of a choice particle, spelled out recursively.
pub open spec fn view_choice(c: Choice) -> ChoiceView
    decreases c,
{
    ChoiceView { occurs: c.occurs.deep_view(), elements: view_choice_items_seq(c.elements@) }
}

/// The deep views of a list of choice particles, in order.
pub open spec fn view_choice_seq(s: Seq<Choice>) -> Seq<ChoiceView>
    decreases s,
{
    if s.len() == 0 {
        Seq::empty()
    } else {
        view_choice_seq(s.drop_last()).push(view_choice(s.last()))
    }
}

impl DeepView for ChoiceItems {
    type V = ChoiceItemsView;

    open spec fn deep_view(&self) -> ChoiceItemsView {
        view_choice_items(*self)
    }
}

impl DeepView for Choice {
    type V = ChoiceView;

    open spec fn deep_view(&self) -> ChoiceView {
        view_choice(*self)
    }
}

/// The alternatives read from `cs`: every `element`, nested `choice` and
/// nested `sequence` child, tagged by kind, with the relative order
/// across the three tags preserved exactly as in the source.
pub open spec fn spec_choice_items(cs: Seq<XmlChild>) -> Seq<ChoiceItemsView>
    decreases cs,
{
    if cs.len() == 0 {
        Seq::empty()
    } else {
        let rest = spec_choice_items(cs.drop_last());
        if is_tagged(cs.last(), "element"@) {
            rest.push(ChoiceItemsView::Element(spec_element(child_node(cs.last()))))
        } else if is_tagged(cs.last(), "choice"@) {
            rest.push(ChoiceItemsView::Choice(spec_choice(child_node(cs.last()))))
        } else if is_tagged(cs.last(), "sequence"@) {
            rest.push(ChoiceItemsView::Sequence(spec_sequence(child_node(cs.last()))))
        } else {
            rest
        }
    }
}

/// The choice read from `n`: its cardinality markers and its
/// alternatives in source order.
pub open spec fn spec_choice(n: XmlNode) -> ChoiceView
    decreases n,
{
    ChoiceView { occurs: spec_occurs(n), elements: spec_choice_items(n.children@) }
}

/// The choices read from the `choice` element children of `cs`, in
/// document order.
pub open spec fn spec_choice_list(cs: Seq<XmlChild>) -> Seq<ChoiceView>
    decreases cs,
{
    if cs.len() == 0 {
        Seq::empty()
    } else {
        let rest = spec_choice_list(cs.drop_last());
        if is_tagged(cs.last(), "choice"@) {
            rest.push(spec_choice(child_node(cs.last())))
        } else {
            rest
        }
    }
}

/// The children of `cs` that are alternatives of a choice: every element
/// child tagged `element`, `choice` or `sequence`, in document order.
pub open spec fn particle_children(cs: Seq<XmlChild>) -> Seq<XmlChild>
    decreases cs.len(),
{
    if cs.len() == 0 {
        Seq::empty()
    } else {
        let rest = particle_children(cs.drop_last());
        if is_tagged(cs.last(), "element"@) || is_tagged(cs.last(), "choice"@) || is_tagged(
            cs.last(),
            "sequence"@,
        ) {
            rest.push(cs.last())
        } else {
            rest
        }
    }
}

/// Whether a choice alternative carries exactly the kind that the
/// child's tag names.
pub open spec fn item_matches_child(it: ChoiceItemsView, c: XmlChild) -> bool {
    &&& (it is Element <==> is_tagged(c, "element"@))
    &&& (it is Choice <==> is_tagged(c, "choice"@))
    &&& (it is Sequence <==> is_tagged(c, "sequence"@))
}

/// The tag names of the three alternative kinds are pairwise different.
proof fn lemma_distinct_particle_tags()
    ensures
        "element"@ != "choice"@,
        "element"@ != "sequence"@,
        "choice"@ != "sequence"@,
{
    reveal_strlit("element");
    reveal_strlit("choice");
    reveal_strlit("sequence");
    assert("element"@.len() == 7);
    assert("choice"@.len() == 6);
    assert("sequence"@.len() == 8);
}

/// Both claims of the law below, stated over any child list and proved
/// by induction from its tail.
proof fn lemma_choice_items_match_children(cs: Seq<XmlChild>)
    ensures
        spec_choice_items(cs).len() == particle_children(cs).len(),
        forall|k: int|
            0 <= k < spec_choice_items(cs).len() ==> item_matches_child(
                #[trigger] spec_choice_items(cs)[k],
                particle_children(cs)[k],
            ),
    decreases cs.len(),
{
    lemma_distinct_particle_tags();
    if cs.len() > 0 {
        lemma_choice_items_match_children(cs.drop_last());
        let prev_items = spec_choice_items(cs.drop_last());
        let prev_parts = particle_children(cs.drop_last());
        if is_tagged(cs.last(), "element"@) || is_tagged(cs.last(), "choice"@) || is_tagged(
            cs.last(),
            "sequence"@,
        ) {
            assert(particle_children(cs) == prev_parts.push(cs.last()));
            assert(forall|k: int|
                0 <= k < prev_items.len() ==> #[trigger] spec_choice_items(cs)[k]
                    == prev_items[k]);
            assert(item_matches_child(
                spec_choice_items(cs)[prev_items.len() as int],
                cs.last(),
            ));
        }
    }
}

/// Law: the alternatives of a choice match, one for one and in source
/// order, the interleaved `element`, `choice` and `sequence` children of
/// the node, each alternative of exactly the kind its child's tag names.
pub proof fn lemma_choice_matches_children(n: XmlNode)
    ensures
        spec_choice(n).elements.len() == particle_children(n.children@).len(),
        forall|k: int|
            0 <= k < spec_choice(n).elements.len() ==> item_matches_child(
                #[trigger] spec_choice(n).elements[k],
                particle_children(n.children@)[k],
            ),
{
    lemma_choice_items_match_children(n.children@);
}

impl Choice {
    /// Capture the cardinality markers of `node`, then gather its
    /// `element`, nested `choice` and nested `sequence` children into one
    /// tagged list that preserves their relative order across the three
    /// tags.
    pub fn read(node: &XmlNode) -> (r: Self)
        ensures
            r.deep_view() == spec_choice(*node),
        decreases *node,
    {
        let occurs = Occurs::read(node);
        let mut elements: Vec<ChoiceItems> = Vec::new();
        let mut i: usize = 0;
        proof {
            assert(view_choice_items_seq(elements@) =~= spec_choice_items(node.children@.take(0)));
        }
        while i < node.children.len()
            invariant
                i <= node.children.len(),
                view_choice_items_seq(elements@) == spec_choice_items(node.children@.take(i as int)),
            decreases node.children.len() - i,
        {
            proof {
                assert(node.children@.take(i as int + 1).drop_last() =~= node.children@.take(
                    i as int,
                ));
                assert(node.children@.take(i as int + 1).last() == node.children@[i as int]);
            }
            match &node.children[i] {
                XmlChild::Node(c) => {
                    if c.name_is("element") {
                        let ghost pre = elements@;
                        let e = ChoiceItems::Element(Element::read(c));
                        let ghost ge = e;
                        elements.push(e);
                        proof {
                            assert(pre.push(ge).drop_last() =~= pre);
                            assert(view_choice_items_seq(elements@) == view_choice_items_seq(
                                pre,
                            ).push(view_choice_items(ge)));
                        }
                    } else if c.name_is("choice") {
                        let ghost pre = elements@;
                        let e = ChoiceItems::Choice(Choice::read(c));
                        let ghost ge = e;
                        elements.push(e);
                        proof {
                            assert(pre.push(ge).drop_last() =~= pre);
                            assert(view_choice_items_seq(elements@) == view_choice_items_seq(
                                pre,
                            ).push(view_choice_items(ge)));
                        }
                    } else if c.name_is("sequence") {
                        let ghost pre = elements@;
                        let e = ChoiceItems::Sequence(Sequence::read(c));
                        let ghost ge = e;
                        elements.push(e);
                        proof {
                            assert(pre.push(ge).drop_last() =~= pre);
                            assert(view_choice_items_seq(elements@) == view_choice_items_seq(
                                pre,
                            ).push(view_choice_items(ge)));
                        }
                    }
                },
                _ => {},
            }
            i += 1;
        }
        proof {
            assert(node.children@.take(node.children@.len() as int) =~= node.children@);
        }
        Choice { occurs, elements }
    }
}

} // verus!
