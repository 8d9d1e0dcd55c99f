//! Parsing of the `snafu` annotation language into a typed attribute list.
//!
//! The input is the annotations attached to one item, as token trees; the
//! output is every attribute they define, in order, or every error, one per
//! failing annotation. Paths, format arguments, types and expressions inside
//! the annotations are captured as opaque fragments and handed on unchanged.

pub mod attribute;
pub mod collect;
pub mod grammar;
pub mod laws;
pub mod token;

pub use attribute::{
    Attribute, AttributeModel, ClauseModel, ErrorKind, Expected, Fragment, ParseError, SourceClause,
    SpanRange,
};
pub use collect::{AnnotationGroup, attributes_from_groups};
pub use grammar::parse_group;
pub use token::{Delimiter, Spacing, TokenTree};
