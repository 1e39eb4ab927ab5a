//! DFDL schema and TDML document handling, verified.

pub mod ast;
pub mod attrs;
pub mod calendar;
pub mod computed;
pub mod encoding;
pub mod entities;
pub mod error;
pub mod expr;
pub mod merge;
pub mod numbers;
pub mod program;
pub mod props;
pub mod qname;
pub mod resolver;
pub mod strmap;
pub mod tdml;
pub mod text;
pub mod union_validate;
pub mod unparse_validate;
pub mod validate;
pub mod value;
pub mod values;
pub mod xml;
pub mod xml_marks;
pub mod xml_text;
pub mod xsd;
