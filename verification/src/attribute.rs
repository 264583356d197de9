use vstd::prelude::*;
use crate::xml_node::{child_node, is_tagged, lemma_push_deep_view, spec_attr, XmlChild, XmlNode};

verus! {

/// One auxiliary facet of an attribute declaration, holding the raw
/// attribute text.
#[derive(Debug, PartialEq, PartialOrd, Clone)]
pub enum AttributeMeta {
    Reference(String),
    Use(String),
    Fixed(String),
    Default(String),
}

/// Mathematical image of `AttributeMeta`.
pub enum AttributeMetaView {
    Reference(Seq<char>),
    Use(Seq<char>),
    Fixed(Seq<char>),
    Default(Seq<char>),
}

impl DeepView for AttributeMeta {
    type V = AttributeMetaView;

    open spec fn deep_view(&self) -> AttributeMetaView {
        match self {
            AttributeMeta::Reference(s) => AttributeMetaView::Reference(s@),
            AttributeMeta::Use(s) => AttributeMetaView::Use(s@),
            AttributeMeta::Fixed(s) => AttributeMetaView::Fixed(s@),
            AttributeMeta::Default(s) => AttributeMetaView::Default(s@),
        }
    }
}

/// A single attribute declaration or reference, with its auxiliary facets
/// in the order encountered.
#[derive(Debug, PartialEq, PartialOrd, Clone, Default)]
pub struct Attribute {
    pub name: Option<String>,
    pub type_: Option<String>,
    pub additional_attributes: Vec<AttributeMeta>,
}

/// Mathematical image of `Attribute`.
pub struct AttributeView {
    pub name: Option<Seq<char>>,
    pub type_: Option<Seq<char>>,
    pub additional_attributes: Seq<AttributeMetaView>,
}

impl DeepView for Attribute {
    type V = AttributeView;

    open spec fn deep_view(&self) -> AttributeView {
        AttributeView {
            name: self.name.deep_view(),
            type_: self.type_.deep_view(),
            additional_attributes: self.additional_attributes.deep_view(),
        }
    }
}

/// A facet list of zero or one entries: `f` applied to the value of
/// attribute `key` when present.
pub open spec fn spec_meta_of(
    n: XmlNode,
    key: Seq<char>,
    f: spec_fn(Seq<char>) -> AttributeMetaView,
) -> Seq<AttributeMetaView> {
    match spec_attr(n, key) {
        Some(v) => seq![f(v)],
        None => Seq::empty(),
    }
}

/// The facets of an attribute declaration, in the fixed order
/// reference, use, fixed, default; each appears exactly when the
/// corresponding attribute is present on `n`.
pub open spec fn spec_attribute_meta(n: XmlNode) -> Seq<AttributeMetaView> {
    spec_meta_of(n, "ref"@, |v: Seq<char>| AttributeMetaView::Reference(v)) + spec_meta_of(
        n,
        "use"@,
        |v: Seq<char>| AttributeMetaView::Use(v),
    ) + spec_meta_of(n, "fixed"@, |v: Seq<char>| AttributeMetaView::Fixed(v)) + spec_meta_of(
        n,
        "default"@,
        |v: Seq<char>| AttributeMetaView::Default(v),
    )
}

/// The attribute declaration read from `n`: its `name` and `type`
/// attributes as found, and its facets in the fixed order.
pub open spec fn spec_attribute(n: XmlNode) -> AttributeView {
    AttributeView {
        name: spec_attr(n, "name"@),
        type_: spec_attr(n, "type"@),
        additional_attributes: spec_attribute_meta(n),
    }
}

/// The attribute declarations read from the `attribute` element children of
/// `cs`, in document order.
pub open spec fn spec_attribute_list(cs: Seq<XmlChild>) -> Seq<AttributeView>
    decreases cs.len(),
{
    if cs.len() == 0 {
        Seq::empty()
    } else {
        let rest = spec_attribute_list(cs.drop_last());
        if is_tagged(cs.last(), "attribute"@) {
            rest.push(spec_attribute(child_node(cs.last())))
        } else {
            rest
        }
    }
}

impl Attribute {
    /// Capture the `name` and `type` attributes of `node`, then its
    /// `ref`, `use`, `fixed` and `default` facets in that fixed order.
    pub fn read(node: &XmlNode) -> (r: Self)
        ensures
            r.deep_view() == spec_attribute(*node),
    {
        let mut metas: Vec<AttributeMeta> = Vec::new();
        match node.attribute("ref") {
            Some(v) => {
                let ghost pre = metas;
                let e = AttributeMeta::Reference(v);
                let ghost ge = e;
                metas.push(e);
                proof {
                    lemma_push_deep_view(pre, ge, metas);
                }
            },
            None => {},
        }
        proof {
            assert(metas.deep_view() =~= spec_meta_of(
                *node,
                "ref"@,
                |v: Seq<char>| AttributeMetaView::Reference(v),
            ));
        }
        match node.attribute("use") {
            Some(v) => {
                let ghost pre = metas;
                let e = AttributeMeta::Use(v);
                let ghost ge = e;
                metas.push(e);
                proof {
                    lemma_push_deep_view(pre, ge, metas);
                }
            },
            None => {},
        }
        match node.attribute("fixed") {
            Some(v) => {
                let ghost pre = metas;
                let e = AttributeMeta::Fixed(v);
                let ghost ge = e;
                metas.push(e);
                proof {
                    lemma_push_deep_view(pre, ge, metas);
                }
            },
            None => {},
        }
        match node.attribute("default") {
            Some(v) => {
                let ghost pre = metas;
                let e = AttributeMeta::Default(v);
                let ghost ge = e;
                metas.push(e);
                proof {
                    lemma_push_deep_view(pre, ge, metas);
                }
            },
            None => {},
        }
        proof {
            assert(metas.deep_view() =~= spec_attribute_meta(*node));
        }
        Attribute {
            name: node.attribute("name"),
            type_: node.attribute("type"),
            additional_attributes: metas,
        }
    }
}

} // verus!
