use crate::uri::Uri;
use vstd::prelude::*;

verus! {

/// The datatypes of XML Schema that literals are commonly typed with.
#[derive(Debug, Clone, Copy, PartialEq, Eq, Structural)]
pub enum XmlDataTypes {
    String,
    Decimal,
    Double,
    Boolean,
    Date,
    Long,
    Int,
    Integer,
}

impl XmlDataTypes {
    /// The namespace of XML Schema.
    pub open spec fn schema() -> Seq<char> {
        "http://www.w3.org/2001/XMLSchema#"@
    }

    /// The text that names the datatype: for `Boolean`, `Integer`, `Decimal`
    /// and `Double` the namespace followed by the datatype's name, for every
    /// other datatype the marker `todo`.
    pub open spec fn spelled(self) -> Seq<char> {
        match self {
            XmlDataTypes::Boolean => Self::schema() + "boolean"@,
            XmlDataTypes::Integer => Self::schema() + "integer"@,
            XmlDataTypes::Decimal => Self::schema() + "decimal"@,
            XmlDataTypes::Double => Self::schema() + "double"@,
            _ => "todo"@,
        }
    }

    /// The URI whose text names the datatype.
    pub fn to_uri(&self) -> (uri: Uri)
        ensures
            uri@ == self.spelled(),
    {
        Uri::new(self.to_string())
    }

    /// The text that names the datatype.
    pub fn to_string(&self) -> (text: String)
        ensures
            text@ == self.spelled(),
    {
        let schema_name = String::from_str("http://www.w3.org/2001/XMLSchema#");
        match *self {
            XmlDataTypes::Boolean => schema_name.concat("boolean"),
            XmlDataTypes::Integer => schema_name.concat("integer"),
            XmlDataTypes::Decimal => schema_name.concat("decimal"),
            XmlDataTypes::Double => schema_name.concat("double"),
            _ => String::from_str("todo"),
        }
    }
}

/// The XML Schema vocabulary.
pub struct XmlSpecs {}

} // verus!
