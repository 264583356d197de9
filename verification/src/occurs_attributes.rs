use vstd::prelude::*;
use crate::xml_node::{lemma_push_deep_view, spec_attr, XmlNode};

verus! {

/// A cardinality marker of a structural node, holding the raw attribute
/// text verbatim (including the literal token `"unbounded"`); numeric
/// interpretation is left to downstream consumers.
#[derive(Debug, PartialEq, PartialOrd, Clone)]
pub enum Occurs {
    MinOccurs(String),
    MaxOccurs(String),
}

/// Mathematical image of `Occurs`.
pub enum OccursView {
    MinOccurs(Seq<char>),
    MaxOccurs(Seq<char>),
}

impl DeepView for Occurs {
    type V = OccursView;

    open spec fn deep_view(&self) -> OccursView {
        match self {
            Occurs::MinOccurs(s) => OccursView::MinOccurs(s@),
            Occurs::MaxOccurs(s) => OccursView::MaxOccurs(s@),
        }
    }
}

/// The `MinOccurs` marker of `n`, as a list of zero or one entries.
pub open spec fn spec_min_occurs(n: XmlNode) -> Seq<OccursView> {
    match spec_attr(n, "minOccurs"@) {
        Some(v) => seq![OccursView::MinOccurs(v)],
        None => Seq::empty(),
    }
}

/// The `MaxOccurs` marker of `n`, as a list of zero or one entries.
pub open spec fn spec_max_occurs(n: XmlNode) -> Seq<OccursView> {
    match spec_attr(n, "maxOccurs"@) {
        Some(v) => seq![OccursView::MaxOccurs(v)],
        None => Seq::empty(),
    }
}

/// The cardinality markers of `n`: `MinOccurs` first when `minOccurs` is
/// present, then `MaxOccurs` when `maxOccurs` is present, never more.
pub open spec fn spec_occurs(n: XmlNode) -> Seq<OccursView> {
    spec_min_occurs(n) + spec_max_occurs(n)
}

/// Law: the cardinality markers keep the raw attribute text verbatim,
/// with no numeric interpretation, `MinOccurs` always first; a node
/// carries as many markers as it has of the two attributes.
pub proof fn lemma_occurs_raw_text(n: XmlNode)
    ensures
        spec_attr(n, "minOccurs"@) matches Some(v) ==> spec_occurs(n)[0] == OccursView::MinOccurs(
            v,
        ),
        spec_attr(n, "maxOccurs"@) matches Some(v) ==> spec_occurs(n).last()
            == OccursView::MaxOccurs(v),
        spec_occurs(n).len() == (if spec_attr(n, "minOccurs"@) is Some {
            1int
        } else {
            0int
        }) + (if spec_attr(n, "maxOccurs"@) is Some {
            1int
        } else {
            0int
        }),
{
}

impl Occurs {
    /// Capture the `minOccurs`/`maxOccurs` attributes of `node` in that
    /// fixed order, each with its raw text.
    pub fn read(node: &XmlNode) -> (r: Vec<Self>)
        ensures
            r.deep_view() == spec_occurs(*node),
    {
        let mut r: Vec<Occurs> = Vec::new();
        match node.attribute("minOccurs") {
            Some(v) => {
                let ghost pre = r;
                let o = Occurs::MinOccurs(v);
                let ghost go = o;
                r.push(o);
                proof {
                    lemma_push_deep_view(pre, go, r);
                }
            },
            None => {},
        }
        proof {
            assert(r.deep_view() =~= spec_min_occurs(*node));
        }
        match node.attribute("maxOccurs") {
            Some(v) => {
                let ghost pre = r;
                let o = Occurs::MaxOccurs(v);
                let ghost go = o;
                r.push(o);
                proof {
                    lemma_push_deep_view(pre, go, r);
                }
            },
            None => {},
        }
        proof {
            assert(r.deep_view() =~= spec_occurs(*node));
        }
        r
    }
}

} // verus!
