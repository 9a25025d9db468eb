use rdf::specs::xml_specs::XmlDataTypes;

#[test]
fn xml_datatype_uris_are_spelled_out() {
    assert_eq!(XmlDataTypes::Boolean.to_string(), "http://www.w3.org/2001/XMLSchema#boolean");
    assert_eq!(XmlDataTypes::Integer.to_string(), "http://www.w3.org/2001/XMLSchema#integer");
    assert_eq!(XmlDataTypes::Decimal.to_string(), "http://www.w3.org/2001/XMLSchema#decimal");
    assert_eq!(XmlDataTypes::Double.to_string(), "http://www.w3.org/2001/XMLSchema#double");
}

#[test]
fn xml_datatypes_without_a_uri_are_marked() {
    for datatype in
        [XmlDataTypes::String, XmlDataTypes::Date, XmlDataTypes::Long, XmlDataTypes::Int]
    {
        assert_eq!(datatype.to_string(), "todo");
    }
    assert_ne!(XmlDataTypes::Int.to_string(), XmlDataTypes::Integer.to_string());
}

#[test]
fn xml_datatype_uri_is_its_text() {
    for datatype in [XmlDataTypes::Double, XmlDataTypes::Boolean, XmlDataTypes::Long] {
        assert_eq!(*datatype.to_uri().to_string(), datatype.to_string());
    }
}
