use xsdl_parser::prelude::{Occurs, Schema};

#[test]
fn complext_type_1() {
    let xml = r#"
<xs:schema xmlns:xs="http://www.w3.org/2001/XMLSchema" xmlns:xlink="http://www.w3.org/1999/xlink" elementFormDefault="qualified" attributeFormDefault="unqualified">
    <xs:complexType name="accidental-text">
        <xs:group ref="slash" minOccurs="0"/>

		<xs:annotation>
			<xs:documentation>The accidental-text type represents an element with an accidental value and text-formatting attributes.</xs:documentation>
		</xs:annotation>
		<xs:simpleContent>
			<xs:extension base="accidental-value">
				<xs:attributeGroup ref="text-formatting"/>
				<xs:attribute name="smufl" type="smufl-accidental-glyph-name"/>
			</xs:extension>
		</xs:simpleContent>
        <xs:group ref="staff" minOccurs="0"/>
	</xs:complexType>
</xs:schema>
        "#;
    let item = Schema::parse(xml).unwrap();

    assert_eq!(item.complex_types.len(), 1);
    assert_eq!(item.complex_types[0].name, "accidental-text".to_string());

    let type_1 = &item.complex_types[0];
    assert_eq!(type_1.annotations.len(), 1);
    assert_eq!(type_1.simple_content.len(), 1);

    let grp_1 = type_1.groups[0].clone();
    assert_eq!(grp_1.reference, "slash".to_string());
    assert_eq!(grp_1.occurs[0], Occurs::MinOccurs("0".to_string()));

    let grp_2 = type_1.groups[1].clone();
    assert_eq!(grp_2.reference, "staff".to_string());
    assert_eq!(grp_2.occurs[0], Occurs::MinOccurs("0".to_string()));
}
