//! Source positions, spans and the error values that every phase reports.

use vstd::prelude::*;

use crate::util::string_from;
use crate::util::usize_to_decimal;
use crate::util::spec_decimal;

verus! {

/// A position in the source text, both counted from 1.
#[derive(Clone, Copy, PartialEq, Eq, Structural, Hash, Debug)]
pub struct Pos {
    pub line: usize,
    pub column: usize,
}

/// A range of the source text, from `start` up to `end`.
#[derive(Clone, Copy, PartialEq, Eq, Structural, Hash, Debug)]
pub struct Span {
    pub start: Pos,
    pub end: Pos,
}

impl Span {
    pub fn new(start: Pos, end: Pos) -> (span: Span)
        ensures
            span.start == start,
            span.end == end,
    {
        Span { start, end }
    }

    pub open spec fn merge_spec(start: Span, end: Span) -> Span {
        Span { start: start.start, end: end.end }
    }

    /// The span that starts where `start` starts and ends where `end` ends.
    pub fn merge(start: Span, end: Span) -> (span: Span)
        ensures
            span == Span::merge_spec(start, end),
    {
        Span { start: start.start, end: end.end }
    }
}

/// The phase that reported an error.
#[derive(Clone, Copy, PartialEq, Eq, Structural, Debug)]
pub enum ErrorKind {
    Lex,
    Parse,
    StaticCheck,
    Runtime,
}

pub open spec fn spec_error_kind_name(kind: ErrorKind) -> Seq<char> {
    match kind {
        ErrorKind::Lex => seq!['l', 'e', 'x', 'e', 'r'],
        ErrorKind::Parse => seq!['p', 'a', 'r', 's', 'e', 'r'],
        ErrorKind::StaticCheck => seq!['s', 't', 'a', 't', 'i', 'c', ' ', 'c', 'h', 'e', 'c', 'k'],
        ErrorKind::Runtime => seq!['r', 'u', 'n', 't', 'i', 'm', 'e'],
    }
}

impl ErrorKind {
    /// The name under which the phase is shown in messages.
    pub fn name(&self) -> (name: String)
        ensures
            name@ == spec_error_kind_name(*self),
    {
        let name = match self {
            ErrorKind::Lex => string_from("lexer"),
            ErrorKind::Parse => string_from("parser"),
            ErrorKind::StaticCheck => string_from("static check"),
            ErrorKind::Runtime => string_from("runtime"),
        };
        proof {
            reveal_strlit("lexer");
            reveal_strlit("parser");
            reveal_strlit("static check");
            reveal_strlit("runtime");
        }
        name
    }
}

/// An error of one phase, with its message and, where known, where it occurred.
#[derive(Clone, Debug)]
pub struct FogError {
    pub kind: ErrorKind,
    pub message: String,
    pub span: Option<Span>,
}

pub type FogResult<T> = Result<T, FogError>;

/// The value of an error: its phase, the characters of its message and its span.
pub struct ErrorModel {
    pub kind: ErrorKind,
    pub message: Seq<char>,
    pub span: Option<Span>,
}

impl View for FogError {
    type V = ErrorModel;

    open spec fn view(&self) -> ErrorModel {
        ErrorModel { kind: self.kind, message: self.message@, span: self.span }
    }
}

pub open spec fn error_views(s: Seq<FogError>) -> Seq<ErrorModel> {
    s.map_values(|e: FogError| e@)
}

/// The text of an error: `kind error (line:column): message`, or
/// `kind error: message` where the error has no span.
pub open spec fn spec_error_text(kind: ErrorKind, message: Seq<char>, span: Option<Span>) -> Seq<char> {
    match span {
        Some(span) => spec_error_kind_name(kind) + seq![' ', 'e', 'r', 'r', 'o', 'r', ' ', '(']
            + spec_decimal(span.start.line as nat) + seq![':'] + spec_decimal(span.start.column as nat)
            + seq![')', ':', ' '] + message,
        None => spec_error_kind_name(kind) + seq![' ', 'e', 'r', 'r', 'o', 'r', ':', ' '] + message,
    }
}

impl FogError {
    pub fn new(kind: ErrorKind, message: String, span: Option<Span>) -> (error: FogError)
        ensures
            error.kind == kind,
            error.message@ == message@,
            error.span == span,
    {
        FogError { kind, message, span }
    }

    /// The error as it is shown to the user.
    pub fn to_text(&self) -> (text: String)
        ensures
            text@ == spec_error_text(self.kind, self.message@, self.span),
    {
        let mut text = self.kind.name();
        proof {
            reveal_strlit(" error (");
            reveal_strlit(":");
            reveal_strlit("): ");
            reveal_strlit(" error: ");
        }
        match self.span {
            Some(span) => {
                text.append(" error (");
                let line = usize_to_decimal(span.start.line);
                text.append(line.as_str());
                text.append(":");
                let column = usize_to_decimal(span.start.column);
                text.append(column.as_str());
                text.append("): ");
                text.append(self.message.as_str());
            },
            None => {
                text.append(" error: ");
                text.append(self.message.as_str());
            },
        }
        text
    }
}

} // verus!
