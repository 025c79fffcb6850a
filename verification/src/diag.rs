use vstd::prelude::*;

use crate::registry::TypeTag;

verus! {

/// A zero-based line/column position in a query document, counted in
/// characters.
#[derive(Clone, Copy, Debug, PartialEq, Eq, Structural)]
pub struct Position {
    pub line: usize,
    pub character: usize,
}

/// A source range between two positions; containment treats both ends
/// as inclusive (see `spec_range_contains`).
#[derive(Clone, Copy, Debug, PartialEq, Eq, Structural)]
pub struct Range {
    pub start: Position,
    pub end: Position,
}

/// Diagnostic severity, ordered from most to least severe.
#[derive(Clone, Copy, Debug, PartialEq, Eq, Structural)]
pub enum Severity {
    Error,
    Warning,
    Information,
    Hint,
}

/// `a` is at or before `b` in document order.
pub open spec fn spec_pos_le(a: Position, b: Position) -> bool {
    a.line < b.line || (a.line == b.line && a.character <= b.character)
}

/// `p` lies within `r`: at or after the start, at or before the end.
pub open spec fn spec_range_contains(r: Range, p: Position) -> bool {
    spec_pos_le(r.start, p) && spec_pos_le(p, r.end)
}

/// `a` is at or before `b` in document order.
pub fn pos_le(a: Position, b: Position) -> (r: bool)
    ensures
        r == spec_pos_le(a, b),
{
    a.line < b.line || (a.line == b.line && a.character <= b.character)
}

/// `p` lies within `r`.
pub fn range_contains(r: Range, p: Position) -> (res: bool)
    ensures
        res == spec_range_contains(r, p),
{
    pos_le(r.start, p) && pos_le(p, r.end)
}

/// What a diagnostic reports, as structured data; rendering to a display
/// string is left to the embedding (editor transport or CLI).
pub enum Message {
    /// A region the query grammar could not parse.
    SyntaxError,
    /// A token the query grammar required but did not find.
    MissingToken,
    /// A node kind absent from the target grammar's node kinds and
    /// supertype names.
    UnknownNodeKind { name: String },
    /// A supertype prefix that is not a registered supertype.
    UnknownSupertype { name: String },
    /// A subtype that is not among the registered subtypes of its
    /// supertype prefix.
    InvalidSubtype { supertype: String, name: String },
    /// A field name absent from the target grammar's field set.
    UnknownField { name: String },
    /// A predicate name the validator registry does not define.
    UnknownPredicate { name: String },
    /// A directive name the validator registry does not define.
    UnknownDirective { name: String },
    /// An argument count that does not fit the registered signature.
    ArityMismatch { name: String, expected: usize, variadic: bool, actual: usize },
    /// An argument whose shape does not match the registered type tag.
    TypeMismatch { name: String, arg_index: usize, expected: TypeTag },
}

pub enum MessageV {
    SyntaxError,
    MissingToken,
    UnknownNodeKind { name: Seq<char> },
    UnknownSupertype { name: Seq<char> },
    InvalidSubtype { supertype: Seq<char>, name: Seq<char> },
    UnknownField { name: Seq<char> },
    UnknownPredicate { name: Seq<char> },
    UnknownDirective { name: Seq<char> },
    ArityMismatch { name: Seq<char>, expected: usize, variadic: bool, actual: usize },
    TypeMismatch { name: Seq<char>, arg_index: usize, expected: TypeTag },
}

impl View for Message {
    type V = MessageV;

    open spec fn view(&self) -> MessageV {
        match self {
            Message::SyntaxError => MessageV::SyntaxError,
            Message::MissingToken => MessageV::MissingToken,
            Message::UnknownNodeKind { name } => MessageV::UnknownNodeKind { name: name@ },
            Message::UnknownSupertype { name } => MessageV::UnknownSupertype { name: name@ },
            Message::InvalidSubtype { supertype, name } => MessageV::InvalidSubtype {
                supertype: supertype@,
                name: name@,
            },
            Message::UnknownField { name } => MessageV::UnknownField { name: name@ },
            Message::UnknownPredicate { name } => MessageV::UnknownPredicate { name: name@ },
            Message::UnknownDirective { name } => MessageV::UnknownDirective { name: name@ },
            Message::ArityMismatch { name, expected, variadic, actual } => MessageV::ArityMismatch {
                name: name@,
                expected: *expected,
                variadic: *variadic,
                actual: *actual,
            },
            Message::TypeMismatch { name, arg_index, expected } => MessageV::TypeMismatch {
                name: name@,
                arg_index: *arg_index,
                expected: *expected,
            },
        }
    }
}

/// One reported problem: where, how severe, and what.
pub struct Diagnostic {
    pub range: Range,
    pub severity: Severity,
    pub message: Message,
}

pub struct DiagnosticV {
    pub range: Range,
    pub severity: Severity,
    pub message: MessageV,
}

impl View for Diagnostic {
    type V = DiagnosticV;

    open spec fn view(&self) -> DiagnosticV {
        DiagnosticV { range: self.range, severity: self.severity, message: self.message@ }
    }
}

} // verus!
