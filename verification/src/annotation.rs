use vstd::prelude::*;
use crate::xml_node::{
    child_node, is_tagged, lemma_push_deep_view, spec_text, tagged_nodes, XmlChild, XmlNode,
};

verus! {

/// One content entry of an annotation: a piece of documentation text.
#[derive(Debug, Clone, PartialEq)]
pub enum AnnotationContent {
    Documentation(String),
}

/// Mathematical image of `AnnotationContent`.
pub enum AnnotationContentView {
    Documentation(Seq<char>),
}

impl DeepView for AnnotationContent {
    type V = AnnotationContentView;

    open spec fn deep_view(&self) -> AnnotationContentView {
        match self {
            AnnotationContent::Documentation(s) => AnnotationContentView::Documentation(s@),
        }
    }
}

/// Documentation text attached to a schema node.
#[derive(Debug, Clone, Default)]
pub struct Annotation {
    pub content: Vec<AnnotationContent>,
}

/// Mathematical image of `Annotation`.
pub struct AnnotationView {
    pub content: Seq<AnnotationContentView>,
}

impl DeepView for Annotation {
    type V = AnnotationView;

    open spec fn deep_view(&self) -> AnnotationView {
        AnnotationView { content: self.content.deep_view() }
    }
}

/// The content entries gathered from `cs`: one `Documentation` entry for
/// each `documentation` element child that has text, in document order;
/// a `documentation` element without text contributes nothing.
pub open spec fn spec_documentation_entries(cs: Seq<XmlChild>) -> Seq<AnnotationContentView>
    decreases cs.len(),
{
    if cs.len() == 0 {
        Seq::empty()
    } else {
        let rest = spec_documentation_entries(cs.drop_last());
        if is_tagged(cs.last(), "documentation"@) {
            match spec_text(child_node(cs.last())) {
                Some(t) => rest.push(AnnotationContentView::Documentation(t)),
                None => rest,
            }
        } else {
            rest
        }
    }
}

/// The annotation read from `n`: every `documentation` child with text, in
/// document order.
pub open spec fn spec_annotation(n: XmlNode) -> AnnotationView {
    AnnotationView { content: spec_documentation_entries(n.children@) }
}

/// The annotations read from the `annotation` element children of `cs`, in
/// document order.
pub open spec fn spec_annotation_list(cs: Seq<XmlChild>) -> Seq<AnnotationView>
    decreases cs.len(),
{
    if cs.len() == 0 {
        Seq::empty()
    } else {
        let rest = spec_annotation_list(cs.drop_last());
        if is_tagged(cs.last(), "annotation"@) {
            rest.push(spec_annotation(child_node(cs.last())))
        } else {
            rest
        }
    }
}

/// Both claims of the law below, stated over any child list and proved by
/// induction from its tail.
proof fn lemma_documentation_entries_complete(cs: Seq<XmlChild>)
    requires
        forall|j: int|
            0 <= j < tagged_nodes(cs, "documentation"@).len() ==> spec_text(
                #[trigger] tagged_nodes(cs, "documentation"@)[j],
            ) is Some,
    ensures
        spec_documentation_entries(cs).len() == tagged_nodes(cs, "documentation"@).len(),
        forall|k: int|
            0 <= k < spec_documentation_entries(cs).len() ==> #[trigger] spec_documentation_entries(
                cs,
            )[k] == AnnotationContentView::Documentation(
                spec_text(tagged_nodes(cs, "documentation"@)[k]).unwrap(),
            ),
    decreases cs.len(),
{
    if cs.len() > 0 {
        let prev = tagged_nodes(cs.drop_last(), "documentation"@);
        let full = tagged_nodes(cs, "documentation"@);
        assert(forall|j: int| 0 <= j < prev.len() ==> #[trigger] prev[j] == full[j]);
        lemma_documentation_entries_complete(cs.drop_last());
        if is_tagged(cs.last(), "documentation"@) {
            assert(full == prev.push(child_node(cs.last())));
            assert(full[prev.len() as int] == child_node(cs.last()));
            assert(spec_text(full[prev.len() as int]) is Some);
            let t = spec_text(child_node(cs.last())).unwrap();
            assert(spec_documentation_entries(cs) == spec_documentation_entries(
                cs.drop_last(),
            ).push(AnnotationContentView::Documentation(t)));
        }
    }
}

/// Law: an annotation read from a node whose every `documentation` child
/// has text holds exactly one content entry per `documentation` child, in
/// source order, and the entry is that child's text.
pub proof fn lemma_annotation_entry_per_documentation(n: XmlNode)
    requires
        forall|j: int|
            0 <= j < tagged_nodes(n.children@, "documentation"@).len() ==> spec_text(
                #[trigger] tagged_nodes(n.children@, "documentation"@)[j],
            ) is Some,
    ensures
        spec_annotation(n).content.len() == tagged_nodes(n.children@, "documentation"@).len(),
        forall|k: int|
            0 <= k < spec_annotation(n).content.len() ==> #[trigger] spec_annotation(n).content[k]
                == AnnotationContentView::Documentation(
                spec_text(tagged_nodes(n.children@, "documentation"@)[k]).unwrap(),
            ),
{
    lemma_documentation_entries_complete(n.children@);
}

impl Annotation {
    /// An annotation with no content entries.
    pub fn new() -> (r: Self)
        ensures
            r.deep_view().content == Seq::<AnnotationContentView>::empty(),
    {
        Annotation { content: Vec::new() }
    }

    /// Record each `documentation` child of `node` that has text, in
    /// document order; `documentation` children without text are skipped.
    pub fn read(node: &XmlNode) -> (r: Self)
        ensures
            r.deep_view() == spec_annotation(*node),
    {
        let mut r = Annotation::new();
        let mut i: usize = 0;
        proof {
            assert(r.content.deep_view() =~= spec_documentation_entries(node.children@.take(0)));
        }
        while i < node.children.len()
            invariant
                i <= node.children.len(),
                r.content.deep_view() == spec_documentation_entries(
                    node.children@.take(i as int),
                ),
            decreases node.children.len() - i,
        {
            proof {
                assert(node.children@.take(i as int + 1).drop_last() =~= node.children@.take(
                    i as int,
                ));
                assert(node.children@.take(i as int + 1).last() == node.children@[i as int]);
            }
            match &node.children[i] {
                XmlChild::Node(c) => {
                    if c.name_is("documentation") {
                        match c.text_content() {
                            Some(t) => {
                                let ghost pre = r.content;
                                let e = AnnotationContent::Documentation(t);
                                let ghost ge = e;
                                r.content.push(e);
                                proof {
                                    lemma_push_deep_view(pre, ge, r.content);
                                }
                            },
                            None => {},
                        }
                    }
                },
                _ => {},
            }
            i += 1;
        }
        proof {
            assert(node.children@.take(node.children@.len() as int) =~= node.children@);
        }
        r
    }
}

} // verus!
