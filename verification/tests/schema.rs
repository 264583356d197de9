use xsdl_parser::prelude::{AnnotationContent, Schema};

#[test]
fn schema_annotation() {
    let xml = r#"
<xs:schema xmlns:xs="http://www.w3.org/2001/XMLSchema" xmlns:xlink="http://www.w3.org/1999/xlink" elementFormDefault="qualified" attributeFormDefault="unqualified">
    <xs:annotation>
        <xs:documentation>The MusicXML 4.1 DTD has no namespace, so for compatibility
            the MusicXML 4.1 XSD has no namespace either. Those who need to import the
            MusicXML XSD into another schema are advised to create a new version
            that uses "http://www.musicxml.org/xsd/MusicXML" as the namespace.
        </xs:documentation>
    </xs:annotation>
</xs:schema>
"#;

    let item = Schema::parse(xml).unwrap();

    assert_eq!(item.annotations.len(), 1);
    assert_eq!(item.annotations[0].content.len(), 1);
    match &item.annotations[0].content[0] {
        AnnotationContent::Documentation(s) => {
            assert!(s.starts_with("The MusicXML 4.1 DTD has no namespace"));
        }
    }
}

#[test]
fn import() {
    let xml = r#"
<xs:schema xmlns:xs="http://www.w3.org/2001/XMLSchema" xmlns:xlink="http://www.w3.org/1999/xlink" elementFormDefault="qualified" attributeFormDefault="unqualified">
    <xs:import namespace="http://www.w3.org/XML/1998/namespace" schemaLocation="http://www.musicxml.org/xsd/xml.xsd"/>
	<xs:import namespace="http://www.w3.org/1999/xlink" schemaLocation="http://www.musicxml.org/xsd/xlink.xsd"/>
</xs:schema>
"#;

    let item = Schema::parse(xml).unwrap();

    assert_eq!(item.imports.len(), 2);
    assert_eq!(
        item.imports[0].namespace,
        "http://www.w3.org/XML/1998/namespace".to_string()
    );
    assert_eq!(
        item.imports[1].namespace,
        "http://www.w3.org/1999/xlink".to_string()
    );

    assert_eq!(
        item.imports[0].schema_location,
        "http://www.musicxml.org/xsd/xml.xsd".to_string()
    );
    assert_eq!(
        item.imports[1].schema_location,
        "http://www.musicxml.org/xsd/xlink.xsd".to_string()
    );
}
