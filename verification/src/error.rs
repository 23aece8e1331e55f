//! The ways in which generation can fail.

use vstd::prelude::*;
use vstd::string::StringExecFns;

verus! {

/// A failure that ends generation.
#[derive(Debug)]
pub enum CodegenError {
    /// The version selector names no known specification version.
    UnknownSpecVersion(String),
    /// A reference names a schema that the document does not define.
    RefTargetNotFound(String),
    /// References lead back to a schema that is already being expanded.
    ReferenceCycle,
    /// An anonymous `oneOf` schema stands where a field type is needed.
    AnonymousOneOf,
    /// An anonymous `allOf` schema stands where a field type is needed.
    AnonymousAllOf,
    /// An anonymous object schema stands where a field type is needed.
    AnonymousObject,
    /// A schema that cannot contribute fields stands where fields are collected.
    UnexpectedFieldSource,
    /// An error definition refers to another definition instead of giving its text.
    ErrorRedirection,
    /// An optional field would need the optional form of a `serde(with)` codec.
    OptionalSerdeWith,
    /// An array would need the element-wise form of a `serde(with)` codec.
    ArraySerdeWith,
    /// A codec block was asked for a type that is neither a struct nor a unit.
    SerdeBlockUnsupported,
    /// One of the documentation patterns was rejected by the pattern engine.
    InvalidPattern,
}

/// What a [`CodegenError`] is, with strings as character sequences.
pub enum ErrorView {
    UnknownSpecVersion(Seq<char>),
    RefTargetNotFound(Seq<char>),
    ReferenceCycle,
    AnonymousOneOf,
    AnonymousAllOf,
    AnonymousObject,
    UnexpectedFieldSource,
    ErrorRedirection,
    OptionalSerdeWith,
    ArraySerdeWith,
    SerdeBlockUnsupported,
    InvalidPattern,
}

impl DeepView for CodegenError {
    type V = ErrorView;

    open spec fn deep_view(&self) -> ErrorView {
        match self {
            CodegenError::UnknownSpecVersion(s) => ErrorView::UnknownSpecVersion(s@),
            CodegenError::RefTargetNotFound(s) => ErrorView::RefTargetNotFound(s@),
            CodegenError::ReferenceCycle => ErrorView::ReferenceCycle,
            CodegenError::AnonymousOneOf => ErrorView::AnonymousOneOf,
            CodegenError::AnonymousAllOf => ErrorView::AnonymousAllOf,
            CodegenError::AnonymousObject => ErrorView::AnonymousObject,
            CodegenError::UnexpectedFieldSource => ErrorView::UnexpectedFieldSource,
            CodegenError::ErrorRedirection => ErrorView::ErrorRedirection,
            CodegenError::OptionalSerdeWith => ErrorView::OptionalSerdeWith,
            CodegenError::ArraySerdeWith => ErrorView::ArraySerdeWith,
            CodegenError::SerdeBlockUnsupported => ErrorView::SerdeBlockUnsupported,
            CodegenError::InvalidPattern => ErrorView::InvalidPattern,
        }
    }
}

/// The diagnostic text of an error.
pub open spec fn error_text(e: ErrorView) -> Seq<char> {
    match e {
        ErrorView::UnknownSpecVersion(s) => "unknown spec version: "@ + s,
        ErrorView::RefTargetNotFound(s) => "Ref target type not found: "@ + s,
        ErrorView::ReferenceCycle => "Reference cycle while collecting object fields"@,
        ErrorView::AnonymousOneOf => "Anonymous oneOf types should not be used for properties"@,
        ErrorView::AnonymousAllOf => "Anonymous allOf types should not be used for properties"@,
        ErrorView::AnonymousObject => "Anonymous object types should not be used for properties"@,
        ErrorView::UnexpectedFieldSource => "Unexpected schema type when getting object fields"@,
        ErrorView::ErrorRedirection => "Error redirection not implemented"@,
        ErrorView::OptionalSerdeWith => "Optional transformation of #[serde(with)] not implemented"@,
        ErrorView::ArraySerdeWith => "Array wrapper for #[serde(with)] not implemented"@,
        ErrorView::SerdeBlockUnsupported => "serde blocks only implemented for structs and unit"@,
        ErrorView::InvalidPattern => "documentation pattern rejected"@,
    }
}

/// The view of a result: the view of its value, or of its error.
pub open spec fn result_view<T: DeepView>(r: Result<T, CodegenError>) -> Result<T::V, ErrorView> {
    match r {
        Ok(v) => Ok(v.deep_view()),
        Err(e) => Err(e.deep_view()),
    }
}

impl CodegenError {
    /// The diagnostic text of this error.
    pub fn message(&self) -> (r: String)
        ensures
            r@ == error_text(self.deep_view()),
    {
        match self {
            CodegenError::UnknownSpecVersion(s) => {
                let mut out = String::from_str("unknown spec version: ");
                out.append(s.as_str());
                out
            },
            CodegenError::RefTargetNotFound(s) => {
                let mut out = String::from_str("Ref target type not found: ");
                out.append(s.as_str());
                out
            },
            CodegenError::ReferenceCycle => String::from_str(
                "Reference cycle while collecting object fields",
            ),
            CodegenError::AnonymousOneOf => String::from_str(
                "Anonymous oneOf types should not be used for properties",
            ),
            CodegenError::AnonymousAllOf => String::from_str(
                "Anonymous allOf types should not be used for properties",
            ),
            CodegenError::AnonymousObject => String::from_str(
                "Anonymous object types should not be used for properties",
            ),
            CodegenError::UnexpectedFieldSource => String::from_str(
                "Unexpected schema type when getting object fields",
            ),
            CodegenError::ErrorRedirection => String::from_str("Error redirection not implemented"),
            CodegenError::OptionalSerdeWith => String::from_str(
                "Optional transformation of #[serde(with)] not implemented",
            ),
            CodegenError::ArraySerdeWith => String::from_str(
                "Array wrapper for #[serde(with)] not implemented",
            ),
            CodegenError::SerdeBlockUnsupported => String::from_str(
                "serde blocks only implemented for structs and unit",
            ),
            CodegenError::InvalidPattern => String::from_str("documentation pattern rejected"),
        }
    }
}

} // verus!
