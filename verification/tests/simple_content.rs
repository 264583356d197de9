use xsdl_parser::prelude::Schema;

#[test]
fn simple_content_1() {
    let xml = r#"
<xs:schema xmlns:xs="http://www.w3.org/2001/XMLSchema" xmlns:xlink="http://www.w3.org/1999/xlink" elementFormDefault="qualified" attributeFormDefault="unqualified">
    <xs:complexType name="accidental-text">
		<xs:annotation>
			<xs:documentation>The accidental-text type represents an element with an accidental value and text-formatting attributes.</xs:documentation>
		</xs:annotation>
		<xs:simpleContent>
			<xs:extension base="accidental-value">
				<xs:attributeGroup ref="text-formatting"/>
				<xs:attribute name="smufl" type="smufl-accidental-glyph-name"/>
			</xs:extension>
		</xs:simpleContent>
	</xs:complexType>
</xs:schema>
"#;
    let item = Schema::parse(xml).unwrap();

    assert_eq!(item.complex_types.len(), 1);

    let type_1 = &item.complex_types[0];
    assert_eq!(type_1.annotations.len(), 1);
    assert_eq!(type_1.simple_content.len(), 1);
    assert_eq!(type_1.simple_content[0].extensions.len(), 1);
    assert_eq!(
        type_1.simple_content[0].extensions[0].base,
        "accidental-value".to_string()
    );
    assert_eq!(
        type_1.simple_content[0].extensions[0].attribute_groups.len(),
        1
    );
    assert_eq!(type_1.simple_content[0].extensions[0].attributes.len(), 1);
}
