//! What can go wrong.

use vstd::prelude::*;
use crate::values::{owned, Duplicate, Same};

verus! {

/// A failure to read a document.
#[derive(Debug)]
pub enum ParseError {
    /// The document is not what the reader expects.
    InvalidXml { message: String },
    /// An element lacks an attribute that it must have.
    MissingAttribute { element: String, attribute: String },
    /// The document ends too early.
    UnexpectedEof,
}

/// A schema that breaks a rule of the schema language.
#[derive(Debug)]
pub enum SchemaError {
    /// A property that is missing, misplaced or ill-formed.
    InvalidProperty { message: String },
}

/// Any failure of the library.
#[derive(Debug)]
pub enum Error {
    Parse(ParseError),
    Schema(SchemaError),
}

/// What an [`Error`] holds, its text as character sequences.
#[verifier::ext_equal]
pub enum ErrorModel {
    InvalidXml(Seq<char>),
    MissingAttribute(Seq<char>, Seq<char>),
    UnexpectedEof,
    InvalidProperty(Seq<char>),
}

impl DeepView for ParseError {
    type V = ErrorModel;

    open spec fn deep_view(&self) -> ErrorModel {
        match self {
            ParseError::InvalidXml { message } => ErrorModel::InvalidXml(message@),
            ParseError::MissingAttribute { element, attribute } => ErrorModel::MissingAttribute(
                element@,
                attribute@,
            ),
            ParseError::UnexpectedEof => ErrorModel::UnexpectedEof,
        }
    }
}

impl DeepView for SchemaError {
    type V = ErrorModel;

    open spec fn deep_view(&self) -> ErrorModel {
        match self {
            SchemaError::InvalidProperty { message } => ErrorModel::InvalidProperty(message@),
        }
    }
}

impl DeepView for Error {
    type V = ErrorModel;

    open spec fn deep_view(&self) -> ErrorModel {
        match self {
            Error::Parse(e) => e.deep_view(),
            Error::Schema(e) => e.deep_view(),
        }
    }
}

impl View for Error {
    type V = ErrorModel;

    open spec fn view(&self) -> ErrorModel {
        self.deep_view()
    }
}

impl Duplicate for ParseError {
    fn copy(&self) -> (r: Self) {
        match self {
            ParseError::InvalidXml { message } => ParseError::InvalidXml { message: message.copy() },
            ParseError::MissingAttribute { element, attribute } => ParseError::MissingAttribute {
                element: element.copy(),
                attribute: attribute.copy(),
            },
            ParseError::UnexpectedEof => ParseError::UnexpectedEof,
        }
    }
}

impl Duplicate for SchemaError {
    fn copy(&self) -> (r: Self) {
        match self {
            SchemaError::InvalidProperty { message } => SchemaError::InvalidProperty {
                message: message.copy(),
            },
        }
    }
}

impl Duplicate for Error {
    fn copy(&self) -> (r: Self) {
        match self {
            Error::Parse(e) => Error::Parse(e.copy()),
            Error::Schema(e) => Error::Schema(e.copy()),
        }
    }
}

/// The outcome of a step that may fail, as what it holds.
pub open spec fn outcome<T: DeepView>(r: Result<T, Error>) -> Result<T::V, ErrorModel> {
    match r {
        Ok(v) => Ok(v.deep_view()),
        Err(e) => Err(e.deep_view()),
    }
}

/// The text of an error.
pub open spec fn error_text(e: ErrorModel) -> Seq<char> {
    match e {
        ErrorModel::InvalidXml(message) => message,
        ErrorModel::MissingAttribute(element, attribute) => "missing attribute `"@ + attribute
            + "` on `"@ + element + "`"@,
        ErrorModel::UnexpectedEof => "unexpected end of document"@,
        ErrorModel::InvalidProperty(message) => message,
    }
}

impl Error {
    /// The text of the error.
    pub fn to_text(&self) -> (r: String)
        ensures
            r@ == error_text(self@),
    {
        match self {
            Error::Parse(ParseError::InvalidXml { message }) => message.copy(),
            Error::Parse(ParseError::MissingAttribute { element, attribute }) => cat5(
                "missing attribute `",
                attribute.as_str(),
                "` on `",
                element.as_str(),
                "`",
            ),
            Error::Parse(ParseError::UnexpectedEof) => owned("unexpected end of document"),
            Error::Schema(SchemaError::InvalidProperty { message }) => message.copy(),
        }
    }
}

/// An [`ParseError::InvalidXml`] with this message.
pub fn invalid_xml(message: String) -> (r: Error)
    ensures
        r@ == ErrorModel::InvalidXml(message@),
{
    Error::Parse(ParseError::InvalidXml { message })
}

/// A [`ParseError::MissingAttribute`] for this element and attribute.
pub fn missing_attribute(element: &str, attribute: &str) -> (r: Error)
    ensures
        r@ == ErrorModel::MissingAttribute(element@, attribute@),
{
    Error::Parse(
        ParseError::MissingAttribute { element: owned(element), attribute: owned(attribute) },
    )
}

/// A [`SchemaError::InvalidProperty`] with this message.
pub fn invalid_property(message: String) -> (r: Error)
    ensures
        r@ == ErrorModel::InvalidProperty(message@),
{
    Error::Schema(SchemaError::InvalidProperty { message })
}

/// Two strings, one behind the other.
pub fn cat2(a: &str, b: &str) -> (r: String)
    ensures
        r@ == a@ + b@,
{
    let mut out = owned(a);
    out.append(b);
    out
}

/// Three strings, one behind the other.
pub fn cat3(a: &str, b: &str, c: &str) -> (r: String)
    ensures
        r@ == a@ + b@ + c@,
{
    let mut out = owned(a);
    out.append(b);
    out.append(c);
    out
}

/// Four strings, one behind the other.
pub fn cat4(a: &str, b: &str, c: &str, d: &str) -> (r: String)
    ensures
        r@ == a@ + b@ + c@ + d@,
{
    let mut out = owned(a);
    out.append(b);
    out.append(c);
    out.append(d);
    out
}

/// Five strings, one behind the other.
pub fn cat5(a: &str, b: &str, c: &str, d: &str, e: &str) -> (r: String)
    ensures
        r@ == a@ + b@ + c@ + d@ + e@,
{
    let mut out = owned(a);
    out.append(b);
    out.append(c);
    out.append(d);
    out.append(e);
    out
}

/// Six strings, one behind the other.
pub fn cat6(a: &str, b: &str, c: &str, d: &str, e: &str, f: &str) -> (r: String)
    ensures
        r@ == a@ + b@ + c@ + d@ + e@ + f@,
{
    let mut out = owned(a);
    out.append(b);
    out.append(c);
    out.append(d);
    out.append(e);
    out.append(f);
    out
}

/// Seven strings, one behind the other.
pub fn cat7(a: &str, b: &str, c: &str, d: &str, e: &str, f: &str, g: &str) -> (r: String)
    ensures
        r@ == a@ + b@ + c@ + d@ + e@ + f@ + g@,
{
    let mut out = owned(a);
    out.append(b);
    out.append(c);
    out.append(d);
    out.append(e);
    out.append(f);
    out.append(g);
    out
}

/// Eight strings, one behind the other.
pub fn cat8(a: &str, b: &str, c: &str, d: &str, e: &str, f: &str, g: &str, h: &str) -> (r: String)
    ensures
        r@ == a@ + b@ + c@ + d@ + e@ + f@ + g@ + h@,
{
    let mut out = owned(a);
    out.append(b);
    out.append(c);
    out.append(d);
    out.append(e);
    out.append(f);
    out.append(g);
    out.append(h);
    out
}

} // verus!
