use vstd::prelude::*;
use crate::annotation::{spec_annotation_list, Annotation, AnnotationView};
use crate::attribute_group::{spec_attribute_group_list, AttributeGroup, AttributeGroupView};
use crate::complex_type::{spec_complex_type_list, ComplexType, ComplexTypeView};
use crate::import::{spec_import_list, Import, ImportView};
use crate::simple_type::{spec_simple_type_list, SimpleType, SimpleTypeView};
use crate::xml_node::{lemma_push_deep_view, XmlChild, XmlNode};
use crate::xml_text::{parse_tree, parsed_tree, well_formed_xml};

verus! {

/// The root of a schema model: annotations, imports, simple types,
/// attribute groups and complex types, each list in document order.
#[derive(Debug, Default)]
pub struct Schema {
    pub annotations: Vec<Annotation>,
    pub imports: Vec<Import>,
    pub simple_types: Vec<SimpleType>,
    pub attribute_groups: Vec<AttributeGroup>,
    pub complex_types: Vec<ComplexType>,
}

/// Mathematical image of `Schema`.
pub struct SchemaView {
    pub annotations: Seq<AnnotationView>,
    pub imports: Seq<ImportView>,
    pub simple_types: Seq<SimpleTypeView>,
    pub attribute_groups: Seq<AttributeGroupView>,
    pub complex_types: Seq<ComplexTypeView>,
}

impl DeepView for Schema {
    type V = SchemaView;

    open spec fn deep_view(&self) -> SchemaView {
        SchemaView {
            annotations: self.annotations.deep_view(),
            imports: self.imports.deep_view(),
            simple_types: self.simple_types.deep_view(),
            attribute_groups: self.attribute_groups.deep_view(),
            complex_types: self.complex_types.deep_view(),
        }
    }
}

/// The schema read from the root node `n`: its `annotation`, `import`,
/// `simpleType`, `attributeGroup` and `complexType` children, each list
/// in document order.
pub open spec fn spec_schema(n: XmlNode) -> SchemaView {
    SchemaView {
        annotations: spec_annotation_list(n.children@),
        imports: spec_import_list(n.children@),
        simple_types: spec_simple_type_list(n.children@),
        attribute_groups: spec_attribute_group_list(n.children@),
        complex_types: spec_complex_type_list(n.children@),
    }
}

/// The tag names this builder distinguishes are pairwise different.
proof fn lemma_distinct_tags()
    ensures
        "annotation"@ != "import"@,
        "annotation"@ != "simpleType"@,
        "annotation"@ != "attributeGroup"@,
        "annotation"@ != "complexType"@,
        "import"@ != "simpleType"@,
        "import"@ != "attributeGroup"@,
        "import"@ != "complexType"@,
        "simpleType"@ != "attributeGroup"@,
        "simpleType"@ != "complexType"@,
        "attributeGroup"@ != "complexType"@,
{
    reveal_strlit("annotation");
    reveal_strlit("import");
    reveal_strlit("simpleType");
    reveal_strlit("attributeGroup");
    reveal_strlit("complexType");
    assert("annotation"@.len() == 10);
    assert("import"@.len() == 6);
    assert("simpleType"@.len() == 10);
    assert("attributeGroup"@.len() == 14);
    assert("complexType"@.len() == 11);
    assert("annotation"@.index(0) == 'a');
    assert("simpleType"@.index(0) == 's');
}

impl Schema {
    /// Download and parse a schema definition from the internet.
    /// An explicit stub: every call fails.
    pub fn download(_url: &str) -> (r: Result<Self, String>)
        ensures
            r is Err,
    {
        Err("Not implemented yet. Now would be the time to change it.".to_owned())
    }

    /// Parse the given text into a schema. Returns the model exactly when
    /// the text is well-formed XML, and the parse error otherwise; once
    /// the text has a tree, building the model itself cannot fail, and
    /// the model is the one read from that tree.
    pub fn parse(xml: &str) -> (r: Result<Self, String>)
        ensures
            r is Ok <==> well_formed_xml(xml@),
            r matches Ok(s) ==> s.deep_view() == spec_schema(parsed_tree(xml@)),
    {
        match parse_tree(xml) {
            Ok(node) => Ok(Schema::read(&node)),
            Err(e) => Err(e),
        }
    }

    /// Gather the `annotation`, `import`, `simpleType`, `attributeGroup`
    /// and `complexType` children of the root `node`, each list in
    /// document order.
    pub fn read(node: &XmlNode) -> (r: Self)
        ensures
            r.deep_view() == spec_schema(*node),
    {
        let mut annotations: Vec<Annotation> = Vec::new();
        let mut imports: Vec<Import> = Vec::new();
        let mut simple_types: Vec<SimpleType> = Vec::new();
        let mut attribute_groups: Vec<AttributeGroup> = Vec::new();
        let mut complex_types: Vec<ComplexType> = Vec::new();
        let mut i: usize = 0;
        proof {
            assert(annotations.deep_view() =~= spec_annotation_list(node.children@.take(0)));
            assert(imports.deep_view() =~= spec_import_list(node.children@.take(0)));
            assert(simple_types.deep_view() =~= spec_simple_type_list(node.children@.take(0)));
            assert(attribute_groups.deep_view() =~= spec_attribute_group_list(
                node.children@.take(0),
            ));
            assert(complex_types.deep_view() =~= spec_complex_type_list(node.children@.take(0)));
        }
        while i < node.children.len()
            invariant
                i <= node.children.len(),
                annotations.deep_view() == spec_annotation_list(node.children@.take(i as int)),
                imports.deep_view() == spec_import_list(node.children@.take(i as int)),
                simple_types.deep_view() == spec_simple_type_list(node.children@.take(i as int)),
                attribute_groups.deep_view() == spec_attribute_group_list(
                    node.children@.take(i as int),
                ),
                complex_types.deep_view() == spec_complex_type_list(node.children@.take(i as int)),
            decreases node.children.len() - i,
        {
            proof {
                lemma_distinct_tags();
                assert(node.children@.take(i as int + 1).drop_last() =~= node.children@.take(
                    i as int,
                ));
                assert(node.children@.take(i as int + 1).last() == node.children@[i as int]);
            }
            match &node.children[i] {
                XmlChild::Node(c) => {
                    if c.name_is("annotation") {
                        let ghost pre = annotations;
                        let e = Annotation::read(c);
                        let ghost ge = e;
                        annotations.push(e);
                        proof {
                            lemma_push_deep_view(pre, ge, annotations);
                        }
                    } else if c.name_is("import") {
                        let ghost pre = imports;
                        let e = Import::read(c);
                        let ghost ge = e;
                        imports.push(e);
                        proof {
                            lemma_push_deep_view(pre, ge, imports);
                        }
                    } else if c.name_is("simpleType") {
                        let ghost pre = simple_types;
                        let e = SimpleType::read(c);
                        let ghost ge = e;
                        simple_types.push(e);
                        proof {
                            lemma_push_deep_view(pre, ge, simple_types);
                        }
                    } else if c.name_is("attributeGroup") {
                        let ghost pre = attribute_groups;
                        let e = AttributeGroup::read(c);
                        let ghost ge = e;
                        attribute_groups.push(e);
                        proof {
                            lemma_push_deep_view(pre, ge, attribute_groups);
                        }
                    } else if c.name_is("complexType") {
                        let ghost pre = complex_types;
                        let e = ComplexType::read(c);
                        let ghost ge = e;
                        complex_types.push(e);
                        proof {
                            lemma_push_deep_view(pre, ge, complex_types);
                        }
                    }
                },
                _ => {},
            }
            i += 1;
        }
        proof {
            assert(node.children@.take(node.children@.len() as int) =~= node.children@);
        }
        Schema { annotations, imports, simple_types, attribute_groups, complex_types }
    }
}

} // verus!
