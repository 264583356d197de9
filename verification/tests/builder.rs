use xsdl_parser::attribute::AttributeMeta;
use xsdl_parser::choice::ChoiceItems;
use xsdl_parser::complex_type::ComplexType;
use xsdl_parser::attribute_group::AttributeGroup;
use xsdl_parser::prelude::{AnnotationContent, Occurs, Schema, SimpleType};
use xsdl_parser::restriction::RestrictionContent;
use xsdl_parser::xml_node::{XmlChild, XmlNode};

fn elem(name: &str, attributes: Vec<(&str, &str)>, children: Vec<XmlChild>) -> XmlNode {
    XmlNode {
        name: name.to_string(),
        attributes: attributes
            .into_iter()
            .map(|(k, v)| (k.to_string(), v.to_string()))
            .collect(),
        children,
    }
}

#[test]
fn documentation_entries_in_order() {
    let xml = r#"
<xs:schema xmlns:xs="http://www.w3.org/2001/XMLSchema">
    <xs:annotation>
        <xs:documentation>first</xs:documentation>
        <xs:documentation>second</xs:documentation>
        <xs:documentation>third</xs:documentation>
    </xs:annotation>
</xs:schema>
"#;
    let item = Schema::parse(xml).unwrap();
    assert_eq!(item.annotations.len(), 1);
    let content = &item.annotations[0].content;
    assert_eq!(content.len(), 3);
    assert_eq!(content[0], AnnotationContent::Documentation("first".to_string()));
    assert_eq!(content[1], AnnotationContent::Documentation("second".to_string()));
    assert_eq!(content[2], AnnotationContent::Documentation("third".to_string()));
}

#[test]
fn documentation_without_text_skipped() {
    let xml = r#"
<xs:schema xmlns:xs="http://www.w3.org/2001/XMLSchema">
    <xs:annotation>
        <xs:documentation/>
        <xs:documentation>kept</xs:documentation>
    </xs:annotation>
</xs:schema>
"#;
    let item = Schema::parse(xml).unwrap();
    let content = &item.annotations[0].content;
    assert_eq!(content.len(), 1);
    assert_eq!(content[0], AnnotationContent::Documentation("kept".to_string()));
}

#[test]
fn facet_fixed_order_and_dropping() {
    let xml = r#"
<xs:schema xmlns:xs="http://www.w3.org/2001/XMLSchema">
    <xs:simpleType name="t">
        <xs:restriction base="b">
            <xs:pattern value="[a-z]+"/>
            <xs:maxInclusive value="10"/>
            <xs:enumeration value="one"/>
            <xs:minInclusive value="abc"/>
            <xs:minInclusive value="3"/>
            <xs:maxInclusive value="2.5"/>
            <xs:enumeration value="two"/>
        </xs:restriction>
    </xs:simpleType>
</xs:schema>
"#;
    let item = Schema::parse(xml).unwrap();
    let restriction = item.simple_types[0].restriction.clone().unwrap();
    assert_eq!(restriction.base, "b".to_string());
    assert_eq!(
        restriction.content,
        vec![
            RestrictionContent::Enumeration("one".to_string()),
            RestrictionContent::Enumeration("two".to_string()),
            RestrictionContent::MinInclusive(3),
            RestrictionContent::MaxInclusive(10),
            RestrictionContent::Pattern("[a-z]+".to_string()),
        ]
    );
}

#[test]
fn integer_facet_edges() {
    let xml = r#"
<xs:schema xmlns:xs="http://www.w3.org/2001/XMLSchema">
    <xs:simpleType name="t">
        <xs:restriction base="b">
            <xs:minInclusive value="+5"/>
            <xs:minInclusive value="-2147483648"/>
            <xs:minInclusive value="007"/>
            <xs:minInclusive value="2147483648"/>
            <xs:minInclusive value="1x"/>
            <xs:minInclusive value=" 1"/>
            <xs:minInclusive value=""/>
            <xs:minInclusive value="+"/>
            <xs:maxInclusive value="2147483647"/>
        </xs:restriction>
    </xs:simpleType>
</xs:schema>
"#;
    let item = Schema::parse(xml).unwrap();
    let restriction = item.simple_types[0].restriction.clone().unwrap();
    assert_eq!(
        restriction.content,
        vec![
            RestrictionContent::MinInclusive(5),
            RestrictionContent::MinInclusive(-2147483648),
            RestrictionContent::MinInclusive(7),
            RestrictionContent::MaxInclusive(2147483647),
        ]
    );
}

#[test]
fn choice_interleaved_source_order() {
    let xml = r#"
<xs:schema xmlns:xs="http://www.w3.org/2001/XMLSchema">
    <xs:complexType name="c">
        <xs:choice>
            <xs:sequence/>
            <xs:element name="a" type="t"/>
            <xs:choice/>
            <xs:element name="b" type="t"/>
        </xs:choice>
    </xs:complexType>
</xs:schema>
"#;
    let item = Schema::parse(xml).unwrap();
    let choice = &item.complex_types[0].choices[0];
    assert_eq!(choice.elements.len(), 4);
    assert!(matches!(choice.elements[0], ChoiceItems::Sequence(_)));
    match &choice.elements[1] {
        ChoiceItems::Element(e) => assert_eq!(e.name, "a".to_string()),
        _ => panic!("Expected element"),
    }
    assert!(matches!(choice.elements[2], ChoiceItems::Choice(_)));
    match &choice.elements[3] {
        ChoiceItems::Element(e) => assert_eq!(e.name, "b".to_string()),
        _ => panic!("Expected element"),
    }
}

#[test]
fn occurs_raw_strings() {
    let xml = r#"
<xs:schema xmlns:xs="http://www.w3.org/2001/XMLSchema">
    <xs:complexType name="c">
        <xs:choice minOccurs="007" maxOccurs="unbounded">
            <xs:element name="p" type="empty"/>
        </xs:choice>
    </xs:complexType>
</xs:schema>
"#;
    let item = Schema::parse(xml).unwrap();
    let choice = &item.complex_types[0].choices[0];
    assert_eq!(choice.occurs.len(), 2);
    assert_eq!(choice.occurs[0], Occurs::MinOccurs("007".to_string()));
    assert_eq!(choice.occurs[1], Occurs::MaxOccurs("unbounded".to_string()));
}

#[test]
fn attribute_group_reference_facets() {
    let node = elem(
        "attributeGroup",
        vec![("name", "g")],
        vec![XmlChild::Node(elem(
            "attribute",
            vec![("ref", "xlink:href"), ("use", "required")],
            vec![],
        ))],
    );
    let group = AttributeGroup::read(&node);
    assert_eq!(group.name, "g".to_string());
    assert_eq!(group.attributes.len(), 1);
    assert_eq!(
        group.attributes[0].additional_attributes,
        vec![
            AttributeMeta::Reference("xlink:href".to_string()),
            AttributeMeta::Use("required".to_string()),
        ]
    );
}

#[test]
fn union_member_types() {
    let node = elem(
        "simpleType",
        vec![("name", "t")],
        vec![XmlChild::Node(elem(
            "union",
            vec![("memberTypes", "xs:decimal css-font-size")],
            vec![],
        ))],
    );
    let item = SimpleType::read(&node);
    assert_eq!(item.name, "t".to_string());
    assert!(item.restriction.is_none());
    let union = item.union.as_ref().unwrap();
    assert_eq!(
        union.types,
        vec!["xs:decimal".to_string(), "css-font-size".to_string()]
    );
}

#[test]
fn complex_type_choice_with_occurs() {
    let node = elem(
        "complexType",
        vec![("name", "c")],
        vec![XmlChild::Node(elem(
            "choice",
            vec![("minOccurs", "0"), ("maxOccurs", "unbounded")],
            vec![XmlChild::Node(elem(
                "element",
                vec![("name", "p"), ("type", "empty")],
                vec![],
            ))],
        ))],
    );
    let item = ComplexType::read(&node);
    assert_eq!(item.name, "c".to_string());
    assert_eq!(item.choices.len(), 1);
    let choice = &item.choices[0];
    assert_eq!(
        choice.occurs,
        vec![
            Occurs::MinOccurs("0".to_string()),
            Occurs::MaxOccurs("unbounded".to_string()),
        ]
    );
    assert_eq!(choice.elements.len(), 1);
    match &choice.elements[0] {
        ChoiceItems::Element(e) => {
            assert_eq!(e.name, "p".to_string());
            assert_eq!(e.type_, "empty".to_string());
        }
        _ => panic!("Expected element"),
    }
}

#[test]
fn malformed_input_error() {
    let r = Schema::parse("this is <not> well formed </xml");
    match r {
        Ok(_) => panic!("Expected an error"),
        Err(e) => assert!(e.starts_with("Could not parse xml file.")),
    }
}

#[test]
fn download_unavailable() {
    let r = Schema::download("https://www.musicxml.org/xsd/musicxml.xsd");
    assert!(r.is_err());
}

#[test]
fn member_types_absent_and_empty() {
    let absent = elem("union", vec![], vec![]);
    let item = xsdl_parser::union::Union::read(&absent);
    assert_eq!(item.types.len(), 0);

    let empty = elem("union", vec![("memberTypes", "")], vec![]);
    let item = xsdl_parser::union::Union::read(&empty);
    assert_eq!(item.types, vec!["".to_string()]);
}

#[test]
fn restriction_last_wins() {
    let node = elem(
        "simpleType",
        vec![("name", "t")],
        vec![
            XmlChild::Node(elem(
                "restriction",
                vec![("base", "first")],
                vec![],
            )),
            XmlChild::Node(elem(
                "restriction",
                vec![("base", "second")],
                vec![],
            )),
        ],
    );
    let item = SimpleType::read(&node);
    assert_eq!(item.restriction.unwrap().base, "second".to_string());
}
