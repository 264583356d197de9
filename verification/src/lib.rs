pub mod annotation;
pub mod attribute;
pub mod attribute_group;
pub mod choice;
pub mod complex_type;
pub mod element;
pub mod extension;
pub mod group;
pub mod import;
pub mod int_parse;
pub mod occurs_attributes;
pub mod prelude;
pub mod restriction;
pub mod schema;
pub mod sequence;
pub mod simple_content;
pub mod simple_type;
pub mod union;
pub mod xml_node;
pub mod xml_text;
