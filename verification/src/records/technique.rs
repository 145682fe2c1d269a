//! Data for one platform or program, kept as it came.

use crate::error::ColladaError;
use crate::error::Failure;
use crate::text::optional;
use crate::text::same;
use crate::traits::XmlConversion;
use crate::xml::attribute;
use crate::xml::bare;
use crate::xml::duplicate;
use crate::xml::element;
use crate::xml::node;
use crate::xml::tag;
use crate::xml::Node;
use vstd::prelude::*;
use vstd::string::StringExecFns;
use xmltree::Element;

verus! {

/// A technique describes information needed by a specific platform or
/// program.
#[derive(Debug)]
pub struct Technique {
    /// Vendor-defined string that names the platform or target of the
    /// technique.
    pub profile: String,
    /// XML Schema namespace for validation.
    pub xmlns: Option<String>,
    /// The whole `technique` element, kept unread: any well-formed XML.
    pub data: Element,
}

/// A technique as a mathematical value.
pub struct TechniqueView {
    pub profile: Seq<char>,
    pub xmlns: Option<Seq<char>>,
    pub data: Node,
}

impl View for Technique {
    type V = TechniqueView;

    open spec fn view(&self) -> TechniqueView {
        TechniqueView { profile: self.profile@, xmlns: optional(self.xmlns), data: node(self.data) }
    }
}

impl TechniqueView {
    /// The technique without a profile and without data.
    pub open spec fn empty() -> TechniqueView {
        TechniqueView { profile: Seq::empty(), xmlns: None, data: bare("technique"@) }
    }
}

impl Technique {
    /// A technique without a profile and without data.
    pub fn new() -> (r: Technique)
        ensures
            r@ == TechniqueView::empty(),
    {
        Technique { profile: String::new(), xmlns: None, data: element("technique") }
    }

    /// The technique that `e` describes.
    pub(crate) fn read(e: &Element) -> (r: Result<Technique, ColladaError>)
        ensures
            match Technique::decoded(node(*e)) {
                Ok(v) => r is Ok && r->Ok_0@ == v,
                Err(f) => r is Err && r->Err_0@ == f,
            },
    {
        if !same(tag(e), "technique") {
            return Err(
                ColladaError::MissingElement {
                    structure: String::from_str("technique"),
                    elem: String::from_str("technique"),
                },
            );
        }
        match attribute(e, "profile") {
            Some(p) => Ok(Technique { profile: p.clone(), xmlns: None, data: duplicate(e) }),
            None => Err(
                ColladaError::MissingAttr {
                    elem: String::from_str("technique"),
                    attr: String::from_str("profile"),
                },
            ),
        }
    }
}

impl XmlConversion for Technique {
    /// A `technique` element with a `profile` attribute. The whole node is the
    /// data of the technique, whatever it holds.
    open spec fn decoded(n: Node) -> Result<TechniqueView, Failure> {
        if n.name != "technique"@ {
            Err(Failure::MissingElement { structure: "technique"@, elem: "technique"@ })
        } else if !n.attributes.contains_key("profile"@) {
            Err(Failure::MissingAttr { elem: "technique"@, attr: "profile"@ })
        } else {
            Ok(TechniqueView { profile: n.attributes["profile"@], xmlns: None, data: n })
        }
    }

    /// The data of the technique: it holds the whole element already, the
    /// profile among its attributes.
    open spec fn encoded(v: TechniqueView) -> Node {
        v.data
    }

    fn parse(&mut self, e: &Element) -> (r: Result<(), ColladaError>) {
        match Technique::read(e) {
            Ok(rec) => {
                *self = rec;
                Ok(())
            },
            Err(err) => Err(err),
        }
    }

    fn encode(&self) -> (e: Element) {
        duplicate(&self.data)
    }
}

} // verus!
