use vstd::prelude::*;
use crate::occurs_attributes::{spec_occurs, Occurs, OccursView};
use crate::xml_node::{child_node, is_tagged, spec_attr_or_empty, XmlChild, XmlNode};

verus! {

/// A named reference to a reusable content-model fragment, with its
/// cardinality markers. The reference is an unresolved identifier.
#[derive(Debug, Default, PartialEq, PartialOrd, Clone)]
pub struct Group {
    pub reference: String,
    pub occurs: Vec<Occurs>,
}

/// Mathematical image of `Group`.
pub struct GroupView {
    pub reference: Seq<char>,
    pub occurs: Seq<OccursView>,
}

impl DeepView for Group {
    type V = GroupView;

    open spec fn deep_view(&self) -> GroupView {
        GroupView { reference: self.reference@, occurs: self.occurs.deep_view() }
    }
}

/// The group reference declared by `n`: its `ref` attribute (empty when
/// absent) and its cardinality markers.
pub open spec fn spec_group(n: XmlNode) -> GroupView {
    GroupView { reference: spec_attr_or_empty(n, "ref"@), occurs: spec_occurs(n) }
}

/// The group references read from the `group` element children of `cs`,
/// in document order.
pub open spec fn spec_group_list(cs: Seq<XmlChild>) -> Seq<GroupView>
    decreases cs.len(),
{
    if cs.len() == 0 {
        Seq::empty()
    } else {
        let rest = spec_group_list(cs.drop_last());
        if is_tagged(cs.last(), "group"@) {
            rest.push(spec_group(child_node(cs.last())))
        } else {
            rest
        }
    }
}

impl Group {
    /// Capture the `ref` attribute and the cardinality markers of `node`.
    pub fn read(node: &XmlNode) -> (r: Self)
        ensures
            r.deep_view() == spec_group(*node),
    {
        Group { reference: node.attribute_or_empty("ref"), occurs: Occurs::read(node) }
    }
}

} // verus!
