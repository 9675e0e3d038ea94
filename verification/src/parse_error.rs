//! Errors reported while reading source text.

use vstd::prelude::*;
use crate::span::Span;
use crate::text::concat;

verus! {

/// Why source text could not be read as a program. Each error carries the span it
/// points at and the source text it was found in.
#[derive(Debug)]
pub enum ParseError {
    Syntax { message: String, span: Span, src: String },
    UnexpectedToken { expected: String, found: String, span: Span, src: String },
    UnexpectedEof { span: Span, src: String },
    InvalidInt { message: String, span: Span, src: String },
    InvalidFloat { message: String, span: Span, src: String },
    InvalidEscape { span: Span, src: String },
}

/// The text an error is shown with.
pub open spec fn error_text(e: ParseError) -> Seq<char> {
    match e {
        ParseError::Syntax { message, .. } => "Syntax error: "@ + message@,
        ParseError::UnexpectedToken { expected, found, .. } => "Unexpected token: expected "@
            + expected@ + ", found "@ + found@,
        ParseError::UnexpectedEof { .. } => "Unexpected end of input"@,
        ParseError::InvalidInt { message, .. } => "Invalid integer literal: "@ + message@,
        ParseError::InvalidFloat { message, .. } => "Invalid float literal: "@ + message@,
        ParseError::InvalidEscape { .. } => "Invalid escape sequence"@,
    }
}

/// The source text an error was found in.
pub open spec fn error_src(e: ParseError) -> Seq<char> {
    match e {
        ParseError::Syntax { src, .. } => src@,
        ParseError::UnexpectedToken { src, .. } => src@,
        ParseError::UnexpectedEof { src, .. } => src@,
        ParseError::InvalidInt { src, .. } => src@,
        ParseError::InvalidFloat { src, .. } => src@,
        ParseError::InvalidEscape { src, .. } => src@,
    }
}

/// The byte range an error points at.
pub open spec fn error_span(e: ParseError) -> Span {
    match e {
        ParseError::Syntax { span, .. } => span,
        ParseError::UnexpectedToken { span, .. } => span,
        ParseError::UnexpectedEof { span, .. } => span,
        ParseError::InvalidInt { span, .. } => span,
        ParseError::InvalidFloat { span, .. } => span,
        ParseError::InvalidEscape { span, .. } => span,
    }
}

impl ParseError {
    /// A syntax error over the byte range `span`.
    pub fn syntax(message: &str, span: (usize, usize), src: &str) -> (e: ParseError)
        requires
            span.0 <= span.1,
        ensures
            (e matches ParseError::Syntax { message: m, span: sp, src: s } && m@ == message@
                && sp == (Span { start: span.0, end: span.1 }) && s@ == src@),
    {
        ParseError::Syntax {
            message: message.to_owned(),
            span: Span { start: span.0, end: span.1 },
            src: src.to_owned(),
        }
    }

    /// A token other than the one expected, over the byte range `span`.
    pub fn unexpected_token(expected: &str, found: &str, span: (usize, usize), src: &str) -> (e:
        ParseError)
        requires
            span.0 <= span.1,
        ensures
            (e matches ParseError::UnexpectedToken { expected: x, found: f, span: sp, src: s }
                && x@ == expected@ && f@ == found@ && sp == (Span { start: span.0, end: span.1 })
                && s@ == src@),
    {
        ParseError::UnexpectedToken {
            expected: expected.to_owned(),
            found: found.to_owned(),
            span: Span { start: span.0, end: span.1 },
            src: src.to_owned(),
        }
    }

    /// The input ended at byte offset `pos` where more was expected.
    pub fn unexpected_eof(pos: usize, src: &str) -> (e: ParseError)
        ensures
            (e matches ParseError::UnexpectedEof { span: sp, src: s } && sp == (Span {
                start: pos,
                end: pos,
            }) && s@ == src@),
    {
        ParseError::UnexpectedEof { span: Span { start: pos, end: pos }, src: src.to_owned() }
    }

    /// An integer literal that could not be read, over the byte range `span`.
    pub fn invalid_int(message: &str, span: (usize, usize), src: &str) -> (e: ParseError)
        requires
            span.0 <= span.1,
        ensures
            (e matches ParseError::InvalidInt { message: m, span: sp, src: s } && m@ == message@
                && sp == (Span { start: span.0, end: span.1 }) && s@ == src@),
    {
        ParseError::InvalidInt {
            message: message.to_owned(),
            span: Span { start: span.0, end: span.1 },
            src: src.to_owned(),
        }
    }

    /// The text the error is shown with.
    pub fn message(&self) -> (s: String)
        ensures
            s@ == error_text(*self),
    {
        match self {
            ParseError::Syntax { message, .. } => concat("Syntax error: ", message.as_str()),
            ParseError::UnexpectedToken { expected, found, .. } => {
                let a = concat("Unexpected token: expected ", expected.as_str());
                let b = concat(a.as_str(), ", found ");
                concat(b.as_str(), found.as_str())
            },
            ParseError::UnexpectedEof { .. } => "Unexpected end of input".to_owned(),
            ParseError::InvalidInt { message, .. } => concat(
                "Invalid integer literal: ",
                message.as_str(),
            ),
            ParseError::InvalidFloat { message, .. } => concat(
                "Invalid float literal: ",
                message.as_str(),
            ),
            ParseError::InvalidEscape { .. } => "Invalid escape sequence".to_owned(),
        }
    }

    /// The byte range the error points at.
    pub fn span(&self) -> (sp: Span)
        ensures
            sp == error_span(*self),
    {
        match self {
            ParseError::Syntax { span, .. } => *span,
            ParseError::UnexpectedToken { span, .. } => *span,
            ParseError::UnexpectedEof { span, .. } => *span,
            ParseError::InvalidInt { span, .. } => *span,
            ParseError::InvalidFloat { span, .. } => *span,
            ParseError::InvalidEscape { span, .. } => *span,
        }
    }
}

} // verus!
