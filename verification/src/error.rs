//! The ways in which generating a verifier can fail.

use vstd::prelude::*;

verus! {

/// The template engine's account of a template it could not fill. Its
/// contents are not looked into here.
#[verifier::external_type_specification]
#[verifier::external_body]
pub struct ExRenderError(handlebars::RenderError);

/// Why no verifier text was produced.
#[derive(Debug)]
pub enum CodegenError {
    /// A field element of the key is not below its field's modulus.
    InvalidScalar,
    /// The padded domain is larger than any subgroup of the scalar field
    /// whose order is a power of two.
    DomainTooLarge,
    /// The key does not hold exactly two elements of the second group.
    MalformedKey,
    /// The template engine did not fill the template: it refused the
    /// template, the template names a parameter that the key does not give,
    /// or the engine gave up. What it reports is handed on unchanged.
    TemplateError(handlebars::RenderError),
    /// The template is not handed to the engine, because the engine's calls
    /// could go too deep on it: it declares a decorator, with which partial
    /// templates can be defined that include one another without end; or a
    /// quote, a parenthesis or a bracket stands in a tag; or more tags open
    /// a block than the library admits.
    UnsupportedTemplate,
}

/// The kinds of failure, without what the template engine reports in one.
#[derive(Clone, Copy, Debug, PartialEq, Eq, Structural)]
pub enum ErrorKind {
    InvalidScalar,
    DomainTooLarge,
    MalformedKey,
    TemplateError,
    UnsupportedTemplate,
}

impl CodegenError {
    /// The kind of the failure.
    pub open spec fn spec_kind(&self) -> ErrorKind {
        match self {
            CodegenError::InvalidScalar => ErrorKind::InvalidScalar,
            CodegenError::DomainTooLarge => ErrorKind::DomainTooLarge,
            CodegenError::MalformedKey => ErrorKind::MalformedKey,
            CodegenError::TemplateError(_) => ErrorKind::TemplateError,
            CodegenError::UnsupportedTemplate => ErrorKind::UnsupportedTemplate,
        }
    }

    /// The kind of the failure.
    #[verifier::when_used_as_spec(spec_kind)]
    pub fn kind(&self) -> (kind: ErrorKind)
        ensures
            kind == self.spec_kind(),
    {
        match self {
            CodegenError::InvalidScalar => ErrorKind::InvalidScalar,
            CodegenError::DomainTooLarge => ErrorKind::DomainTooLarge,
            CodegenError::MalformedKey => ErrorKind::MalformedKey,
            CodegenError::TemplateError(_) => ErrorKind::TemplateError,
            CodegenError::UnsupportedTemplate => ErrorKind::UnsupportedTemplate,
        }
    }
}

} // verus!
