//! Errors of the response parser.

use vstd::prelude::*;
use crate::gemtext::{GemTextError, GemTextErrorModel};

verus! {

/// Why a raw reply failed to parse.
#[derive(Debug, Clone, PartialEq, Eq)]
pub enum ErrorKind {
    /// A status code outside the grammar; the payload names the full
    /// two-digit code, or `0` when the leading character was no digit at
    /// all.
    InvalidStatus(usize),
    /// A success body that is not well-formed gemtext. The error's line — and
    /// the line of the [`ParserError`] wrapping it — counts 1-based within
    /// the body, not within the whole reply.
    InvalidBody(GemTextError),
    /// The input ended where the grammar required another character.
    SyntaxExpectedData,
    /// The success status line did not end in a newline.
    SyntaxMissingNewline,
    /// The mandatory space after the status code was absent.
    SyntaxMissingSpace,
    /// A status-code position held something other than an ASCII digit.
    InvalidDigit,
}

/// The mathematical value of an [`ErrorKind`].
pub enum ErrorKindModel {
    InvalidStatus(int),
    InvalidBody(GemTextErrorModel),
    SyntaxExpectedData,
    SyntaxMissingNewline,
    SyntaxMissingSpace,
    InvalidDigit,
}

impl View for ErrorKind {
    type V = ErrorKindModel;

    open spec fn view(&self) -> ErrorKindModel {
        match self {
            ErrorKind::InvalidStatus(c) => ErrorKindModel::InvalidStatus(*c as int),
            ErrorKind::InvalidBody(e) => ErrorKindModel::InvalidBody(e@),
            ErrorKind::SyntaxExpectedData => ErrorKindModel::SyntaxExpectedData,
            ErrorKind::SyntaxMissingNewline => ErrorKindModel::SyntaxMissingNewline,
            ErrorKind::SyntaxMissingSpace => ErrorKindModel::SyntaxMissingSpace,
            ErrorKind::InvalidDigit => ErrorKindModel::InvalidDigit,
        }
    }
}

/// A response parse error with the 1-based line where it was detected.
///
/// For the parser's own errors the line counts every `\n` consumed from the
/// reply, the CRLF terminators included. For an [`ErrorKind::InvalidBody`]
/// error the line is the wrapped gemtext error's own, 1-based within the
/// success body — one less than the reply-wide count, since the status line
/// precedes the body.
#[derive(Debug, Clone, PartialEq, Eq)]
pub struct ParserError {
    pub line: usize,
    pub kind: ErrorKind,
}

/// The mathematical value of a [`ParserError`].
pub struct ParserErrorModel {
    pub line: int,
    pub kind: ErrorKindModel,
}

impl View for ParserError {
    type V = ParserErrorModel;

    open spec fn view(&self) -> ParserErrorModel {
        ParserErrorModel { line: self.line as int, kind: self.kind@ }
    }
}

/// How a gemtext error is wrapped into a response parse error: the line is
/// taken from the gemtext error unchanged — 1-based within the body — and
/// the kind wraps the gemtext error whole.
pub open spec fn spec_wrap_gemtext_error(e: GemTextErrorModel) -> ParserErrorModel {
    ParserErrorModel { line: e.line, kind: ErrorKindModel::InvalidBody(e) }
}

impl From<GemTextError> for ParserError {
    fn from(value: GemTextError) -> (r: ParserError) {
        let line = value.line;
        ParserError { line, kind: ErrorKind::InvalidBody(value) }
    }
}

impl vstd::std_specs::convert::FromSpecImpl<GemTextError> for ParserError {
    open spec fn obeys_from_spec() -> bool {
        true
    }

    open spec fn from_spec(t: GemTextError) -> ParserError {
        ParserError { line: t.line, kind: ErrorKind::InvalidBody(t) }
    }
}

} // verus!
