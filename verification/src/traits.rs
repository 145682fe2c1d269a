//! The two-way mapping that every record implements.

use crate::error::ColladaError;
use crate::error::Failure;
use crate::xml::node;
use crate::xml::Node;
use vstd::prelude::*;
use xmltree::Element;

verus! {

/// A record that can be read from an XML element and written back as one.
pub trait XmlConversion: View + Sized {
    /// The record that a node describes, or the failure for which it describes
    /// none.
    spec fn decoded(n: Node) -> Result<Self::V, Failure>;

    /// The node that stands for a record.
    spec fn encoded(v: Self::V) -> Node;

    /// Validates `e` and makes `self` the record that it describes. Where `e`
    /// is refused, `self` stays as it was.
    fn parse(&mut self, e: &Element) -> (r: Result<(), ColladaError>)
        ensures
            match Self::decoded(node(*e)) {
                Ok(v) => r is Ok && final(self)@ == v,
                Err(f) => r is Err && r->Err_0@ == f && *final(self) == *old(self),
            },
    ;

    /// Builds the element that stands for `self`.
    fn encode(&self) -> (e: Element)
        ensures
            node(e) == Self::encoded(self@),
    ;
}

} // verus!
