//! The closed set of validation failures.

use std::num::ParseFloatError;
use vstd::prelude::*;
use vstd::std_specs::convert::FromSpecImpl;
use vstd::string::StringExecFns;

verus! {

/// Why an element tree was refused.
#[derive(Debug)]
pub enum ColladaError {
    /// A literal could not be read (a number that is no number).
    ParseError,
    /// General validation failure.
    Invalid { msg: String },
    /// Element contains a child that it may not have.
    InvalidChild { child: String, parent: String },
    /// Element contains an attribute that it may not have.
    InvalidAttr { elem: String, attr: String },
    /// Element contains an attribute with a value that it may not have.
    InvalidAttrData { elem: String, attr: String, data: String },
    /// Element contains text that it may not have.
    InvalidData { elem: String, data: String },
    /// A required element is missing from the structure being read.
    MissingElement { structure: String, elem: String },
    /// A required attribute is missing from an element.
    MissingAttr { elem: String, attr: String },
    /// An element has no text where text is required.
    MissingData { elem: String },
}

/// A failure as a mathematical value: the view of a [`ColladaError`].
pub enum Failure {
    ParseError,
    Invalid { msg: Seq<char> },
    InvalidChild { child: Seq<char>, parent: Seq<char> },
    InvalidAttr { elem: Seq<char>, attr: Seq<char> },
    InvalidAttrData { elem: Seq<char>, attr: Seq<char>, data: Seq<char> },
    InvalidData { elem: Seq<char>, data: Seq<char> },
    MissingElement { structure: Seq<char>, elem: Seq<char> },
    MissingAttr { elem: Seq<char>, attr: Seq<char> },
    MissingData { elem: Seq<char> },
}

impl View for ColladaError {
    type V = Failure;

    open spec fn view(&self) -> Failure {
        match *self {
            ColladaError::ParseError => Failure::ParseError,
            ColladaError::Invalid { msg } => Failure::Invalid { msg: msg@ },
            ColladaError::InvalidChild { child, parent } => Failure::InvalidChild {
                child: child@,
                parent: parent@,
            },
            ColladaError::InvalidAttr { elem, attr } => Failure::InvalidAttr {
                elem: elem@,
                attr: attr@,
            },
            ColladaError::InvalidAttrData { elem, attr, data } => Failure::InvalidAttrData {
                elem: elem@,
                attr: attr@,
                data: data@,
            },
            ColladaError::InvalidData { elem, data } => Failure::InvalidData {
                elem: elem@,
                data: data@,
            },
            ColladaError::MissingElement { structure, elem } => Failure::MissingElement {
                structure: structure@,
                elem: elem@,
            },
            ColladaError::MissingAttr { elem, attr } => Failure::MissingAttr {
                elem: elem@,
                attr: attr@,
            },
            ColladaError::MissingData { elem } => Failure::MissingData { elem: elem@ },
        }
    }
}

impl Failure {
    /// The short name of the kind of failure.
    pub open spec fn description(self) -> Seq<char> {
        match self {
            Failure::ParseError => "Parse error"@,
            Failure::Invalid { .. } => "Invalid collada"@,
            Failure::InvalidChild { .. } => "Invalid child"@,
            Failure::InvalidAttr { .. } => "Invalid attribute"@,
            Failure::InvalidAttrData { .. } => "Invalid attribute data"@,
            Failure::InvalidData { .. } => "Invalid data"@,
            Failure::MissingElement { .. } => "Missing required element"@,
            Failure::MissingAttr { .. } => "Missing required attribute"@,
            Failure::MissingData { .. } => "Missing required element data"@,
        }
    }

    /// The sentence that reports the failure, with its context filled in.
    pub open spec fn message(self) -> Seq<char> {
        match self {
            Failure::ParseError => "Unable to parse data"@,
            Failure::Invalid { msg } => "Invalid collada: "@ + msg,
            Failure::InvalidChild { child, parent } => "Element <"@ + parent
                + "> has invalid child <"@ + child + ">"@,
            Failure::InvalidAttr { elem, attr } => "Element <"@ + elem
                + "> has invalid attribute '"@ + attr + "'"@,
            Failure::InvalidAttrData { elem, attr, data } => "Element <"@ + elem
                + "> has attribute '"@ + attr + "' with invalid data: "@ + data,
            Failure::InvalidData { elem, data } => "Element <"@ + elem + "> has invalid data: "@
                + data,
            Failure::MissingElement { structure, elem } => "Parsing '"@ + structure
                + "' but required <"@ + elem + "> element not found"@,
            Failure::MissingAttr { elem, attr } => "Element <"@ + elem
                + "> is missing required attribute: "@ + attr,
            Failure::MissingData { elem } => "Element <"@ + elem + "> is missing required data"@,
        }
    }
}

impl ColladaError {
    /// The short name of the kind of failure.
    pub fn description(&self) -> (r: &'static str)
        ensures
            r@ == self@.description(),
    {
        match self {
            ColladaError::ParseError => "Parse error",
            ColladaError::Invalid { .. } => "Invalid collada",
            ColladaError::InvalidChild { .. } => "Invalid child",
            ColladaError::InvalidAttr { .. } => "Invalid attribute",
            ColladaError::InvalidAttrData { .. } => "Invalid attribute data",
            ColladaError::InvalidData { .. } => "Invalid data",
            ColladaError::MissingElement { .. } => "Missing required element",
            ColladaError::MissingAttr { .. } => "Missing required attribute",
            ColladaError::MissingData { .. } => "Missing required element data",
        }
    }

    /// The sentence that reports the failure, with its context filled in.
    pub fn to_string(&self) -> (r: String)
        ensures
            r@ == self@.message(),
    {
        match self {
            ColladaError::ParseError => String::from_str("Unable to parse data"),
            ColladaError::Invalid { msg } => String::from_str("Invalid collada: ").concat(
                msg.as_str(),
            ),
            ColladaError::InvalidChild { child, parent } => String::from_str("Element <").concat(
                parent.as_str(),
            ).concat("> has invalid child <").concat(child.as_str()).concat(">"),
            ColladaError::InvalidAttr { elem, attr } => String::from_str("Element <").concat(
                elem.as_str(),
            ).concat("> has invalid attribute '").concat(attr.as_str()).concat("'"),
            ColladaError::InvalidAttrData { elem, attr, data } => String::from_str(
                "Element <",
            ).concat(elem.as_str()).concat("> has attribute '").concat(attr.as_str()).concat(
                "' with invalid data: ",
            ).concat(data.as_str()),
            ColladaError::InvalidData { elem, data } => String::from_str("Element <").concat(
                elem.as_str(),
            ).concat("> has invalid data: ").concat(data.as_str()),
            ColladaError::MissingElement { structure, elem } => String::from_str(
                "Parsing '",
            ).concat(structure.as_str()).concat("' but required <").concat(elem.as_str()).concat(
                "> element not found",
            ),
            ColladaError::MissingAttr { elem, attr } => String::from_str("Element <").concat(
                elem.as_str(),
            ).concat("> is missing required attribute: ").concat(attr.as_str()),
            ColladaError::MissingData { elem } => String::from_str("Element <").concat(
                elem.as_str(),
            ).concat("> is missing required data"),
        }
    }
}

/// The error with which std refuses a text that is no floating-point
/// number. Nothing is read from it.
#[verifier::external_type_specification]
#[verifier::external_body]
pub struct ExParseFloatError(ParseFloatError);

impl From<ParseFloatError> for ColladaError {
    /// A number that could not be read is a parse error.
    fn from(e: ParseFloatError) -> (r: ColladaError) {
        ColladaError::ParseError
    }
}

impl FromSpecImpl<ParseFloatError> for ColladaError {
    open spec fn obeys_from_spec() -> bool {
        true
    }

    open spec fn from_spec(e: ParseFloatError) -> ColladaError {
        ColladaError::ParseError
    }
}

} // verus!
