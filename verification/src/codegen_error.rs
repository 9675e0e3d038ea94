//! Errors of code generation.

use vstd::prelude::*;
use crate::text::concat;

verus! {

/// Why code could not be generated.
#[derive(Debug)]
pub enum CodegenError {
    UnsupportedFeature(String),
    InvalidState(String),
    TypeConversion(String),
    MissingElement(String),
    GenerationFailed(String),
}

/// What an error is, as a mathematical value.
pub enum ErrV {
    UnsupportedFeature(Seq<char>),
    InvalidState(Seq<char>),
    TypeConversion(Seq<char>),
    MissingElement(Seq<char>),
    GenerationFailed(Seq<char>),
}

pub open spec fn err_v(e: CodegenError) -> ErrV {
    match e {
        CodegenError::UnsupportedFeature(m) => ErrV::UnsupportedFeature(m@),
        CodegenError::InvalidState(m) => ErrV::InvalidState(m@),
        CodegenError::TypeConversion(m) => ErrV::TypeConversion(m@),
        CodegenError::MissingElement(m) => ErrV::MissingElement(m@),
        CodegenError::GenerationFailed(m) => ErrV::GenerationFailed(m@),
    }
}

/// The text an error is shown with.
pub open spec fn codegen_error_text(e: ErrV) -> Seq<char> {
    match e {
        ErrV::UnsupportedFeature(m) => "Unsupported feature: "@ + m,
        ErrV::InvalidState(m) => "Invalid state: "@ + m,
        ErrV::TypeConversion(m) => "Type conversion error: "@ + m,
        ErrV::MissingElement(m) => "Missing required element: "@ + m,
        ErrV::GenerationFailed(m) => "Code generation failed: "@ + m,
    }
}

impl CodegenError {
    /// The text the error is shown with.
    pub fn message(&self) -> (s: String)
        ensures
            s@ == codegen_error_text(err_v(*self)),
    {
        match self {
            CodegenError::UnsupportedFeature(m) => concat("Unsupported feature: ", m.as_str()),
            CodegenError::InvalidState(m) => concat("Invalid state: ", m.as_str()),
            CodegenError::TypeConversion(m) => concat("Type conversion error: ", m.as_str()),
            CodegenError::MissingElement(m) => concat("Missing required element: ", m.as_str()),
            CodegenError::GenerationFailed(m) => concat("Code generation failed: ", m.as_str()),
        }
    }
}

} // verus!
