use vstd::prelude::*;
use crate::xml_node::{child_node, is_tagged, spec_attr_or_empty, XmlChild, XmlNode};

verus! {

/// A namespace + location pair; the imported document itself is never
/// fetched or parsed.
#[derive(Debug, Default)]
pub struct Import {
    pub namespace: String,
    pub schema_location: String,
}

/// Mathematical image of `Import`.
pub struct ImportView {
    pub namespace: Seq<char>,
    pub schema_location: Seq<char>,
}

impl DeepView for Import {
    type V = ImportView;

    open spec fn deep_view(&self) -> ImportView {
        ImportView { namespace: self.namespace@, schema_location: self.schema_location@ }
    }
}

/// The import declared by `n`: its `namespace` and `schemaLocation`
/// attributes, each empty when absent.
pub open spec fn spec_import(n: XmlNode) -> ImportView {
    ImportView {
        namespace: spec_attr_or_empty(n, "namespace"@),
        schema_location: spec_attr_or_empty(n, "schemaLocation"@),
    }
}

/// The imports read from the `import` element children of `cs`, in
/// document order.
pub open spec fn spec_import_list(cs: Seq<XmlChild>) -> Seq<ImportView>
    decreases cs.len(),
{
    if cs.len() == 0 {
        Seq::empty()
    } else {
        let rest = spec_import_list(cs.drop_last());
        if is_tagged(cs.last(), "import"@) {
            rest.push(spec_import(child_node(cs.last())))
        } else {
            rest
        }
    }
}

impl Import {
    /// Capture the `namespace` and `schemaLocation` attributes of `node`.
    pub fn read(node: &XmlNode) -> (r: Self)
        ensures
            r.deep_view() == spec_import(*node),
    {
        Import {
            namespace: node.attribute_or_empty("namespace"),
            schema_location: node.attribute_or_empty("schemaLocation"),
        }
    }
}

} // verus!
