//! Typed records for the asset metadata of a 3D-scene interchange document,
//! and their two-way mapping to a generic XML element tree.
//!
//! Each record implements [`XmlConversion`]: `parse` validates an element
//! against the record's part of the schema and makes the record what the
//! element describes, and `encode` builds the element that stands for the
//! record, its children in the order that the schema fixes.
//!
//! The contracts speak of elements and records as mathematical values. An
//! element is seen through [`xml::node`], a record through its view, and each
//! record says in two specification functions, `decoded` and `encoded`, what
//! is read from a node and what is written for a record. The module [`laws`]
//! proves what follows from them: that writing and reading give a record
//! back, what a record cannot do without, and what it does not take.
//!
//! Numbers are held as their literals, see [`number`]: the verifier does not
//! reason about floating point, and a literal says exactly which number was
//! in the document.

pub mod error;
pub mod laws;
pub mod number;
pub mod records;
pub mod text;
pub mod traits;
pub mod xml;

pub use error::ColladaError;
pub use traits::XmlConversion;
pub use xmltree::Element;
