use vstd::prelude::*;

use crate::diag::Range;

verus! {

/// One argument of a predicate or directive invocation.
pub enum PredArg {
    /// `@name` — a capture reference.
    Capture { name: String, range: Range },
    /// `"text"` — a quoted string literal.
    Str { value: String, range: Range },
    /// A bare number literal.
    Num { value: String, range: Range },
    /// A bare identifier.
    Ident { value: String, range: Range },
}

pub enum PredArgV {
    Capture { name: Seq<char>, range: Range },
    Str { value: Seq<char>, range: Range },
    Num { value: Seq<char>, range: Range },
    Ident { value: Seq<char>, range: Range },
}

impl View for PredArg {
    type V = PredArgV;

    open spec fn view(&self) -> PredArgV {
        match self {
            PredArg::Capture { name, range } => PredArgV::Capture { name: name@, range: *range },
            PredArg::Str { value, range } => PredArgV::Str { value: value@, range: *range },
            PredArg::Num { value, range } => PredArgV::Num { value: value@, range: *range },
            PredArg::Ident { value, range } => PredArgV::Ident { value: value@, range: *range },
        }
    }
}

/// The source range an argument covers.
pub open spec fn spec_arg_range(a: PredArgV) -> Range {
    match a {
        PredArgV::Capture { range, .. } => range,
        PredArgV::Str { range, .. } => range,
        PredArgV::Num { range, .. } => range,
        PredArgV::Ident { range, .. } => range,
    }
}

/// One element of a parsed query document, in pre-order document
/// position. The parse flattens the pattern tree into the sequence of
/// elements that validation and documentation lookup dispatch on; nesting
/// that neither consumer reads is not retained.
pub enum QueryElem {
    /// A region the query grammar could not parse.
    ErrorNode { range: Range },
    /// A token the query grammar required but did not find.
    MissingNode { range: Range },
    /// `(name` — a reference to a target-grammar node kind. The range
    /// spans the name only.
    NamedNode { name: String, range: Range },
    /// `(supertype/subtype` — a supertype-scoped node reference.
    SupertypeNode {
        supertype: String,
        supertype_range: Range,
        subtype: String,
        subtype_range: Range,
    },
    /// `name:` — a field reference. The range spans the name only.
    FieldName { name: String, range: Range },
    /// `(#name? …)` or `(#name! …)` — a predicate (`is_predicate`) or
    /// directive invocation with its arguments.
    Predicate {
        name: String,
        name_range: Range,
        is_predicate: bool,
        args: Vec<PredArg>,
        range: Range,
    },
    /// `@name` — a capture. The name is stored without its sigil; the
    /// range spans sigil and name.
    Capture { name: String, range: Range },
    /// `"text"` — an anonymous node reference.
    AnonymousNode { value: String, range: Range },
    /// The `MISSING` keyword of a missing-node pattern: structurally
    /// valid, never a node-kind reference.
    MissingKeyword { range: Range },
    /// `_` — the wildcard node.
    Wildcard { range: Range },
    /// `.` — an anchor.
    Anchor { range: Range },
    /// `?`, `*` or `+` after a pattern.
    Quantifier { range: Range },
    /// `[` opening an alternation.
    AlternationOpen { range: Range },
    /// `]` closing an alternation.
    AlternationClose { range: Range },
}

pub enum QueryElemV {
    ErrorNode { range: Range },
    MissingNode { range: Range },
    NamedNode { name: Seq<char>, range: Range },
    SupertypeNode {
        supertype: Seq<char>,
        supertype_range: Range,
        subtype: Seq<char>,
        subtype_range: Range,
    },
    FieldName { name: Seq<char>, range: Range },
    Predicate {
        name: Seq<char>,
        name_range: Range,
        is_predicate: bool,
        args: Seq<PredArgV>,
        range: Range,
    },
    Capture { name: Seq<char>, range: Range },
    AnonymousNode { value: Seq<char>, range: Range },
    MissingKeyword { range: Range },
    Wildcard { range: Range },
    Anchor { range: Range },
    Quantifier { range: Range },
    AlternationOpen { range: Range },
    AlternationClose { range: Range },
}

/// View of an argument list.
pub open spec fn args_view(s: Seq<PredArg>) -> Seq<PredArgV> {
    s.map_values(|a: PredArg| a@)
}

impl View for QueryElem {
    type V = QueryElemV;

    open spec fn view(&self) -> QueryElemV {
        match self {
            QueryElem::ErrorNode { range } => QueryElemV::ErrorNode { range: *range },
            QueryElem::MissingNode { range } => QueryElemV::MissingNode { range: *range },
            QueryElem::NamedNode { name, range } => QueryElemV::NamedNode {
                name: name@,
                range: *range,
            },
            QueryElem::SupertypeNode { supertype, supertype_range, subtype, subtype_range } => {
                QueryElemV::SupertypeNode {
                    supertype: supertype@,
                    supertype_range: *supertype_range,
                    subtype: subtype@,
                    subtype_range: *subtype_range,
                }
            },
            QueryElem::FieldName { name, range } => QueryElemV::FieldName {
                name: name@,
                range: *range,
            },
            QueryElem::Predicate { name, name_range, is_predicate, args, range } => {
                QueryElemV::Predicate {
                    name: name@,
                    name_range: *name_range,
                    is_predicate: *is_predicate,
                    args: args_view(args@),
                    range: *range,
                }
            },
            QueryElem::Capture { name, range } => QueryElemV::Capture {
                name: name@,
                range: *range,
            },
            QueryElem::AnonymousNode { value, range } => QueryElemV::AnonymousNode {
                value: value@,
                range: *range,
            },
            QueryElem::MissingKeyword { range } => QueryElemV::MissingKeyword { range: *range },
            QueryElem::Wildcard { range } => QueryElemV::Wildcard { range: *range },
            QueryElem::Anchor { range } => QueryElemV::Anchor { range: *range },
            QueryElem::Quantifier { range } => QueryElemV::Quantifier { range: *range },
            QueryElem::AlternationOpen { range } => QueryElemV::AlternationOpen { range: *range },
            QueryElem::AlternationClose { range } => QueryElemV::AlternationClose {
                range: *range,
            },
        }
    }
}

/// The source range an element covers (for documentation lookup, the
/// hover target).
pub open spec fn spec_elem_range(e: QueryElemV) -> Range {
    match e {
        QueryElemV::ErrorNode { range } => range,
        QueryElemV::MissingNode { range } => range,
        QueryElemV::NamedNode { range, .. } => range,
        QueryElemV::SupertypeNode { supertype_range, .. } => supertype_range,
        QueryElemV::FieldName { range, .. } => range,
        QueryElemV::Predicate { range, .. } => range,
        QueryElemV::Capture { range, .. } => range,
        QueryElemV::AnonymousNode { range, .. } => range,
        QueryElemV::MissingKeyword { range } => range,
        QueryElemV::Wildcard { range } => range,
        QueryElemV::Anchor { range } => range,
        QueryElemV::Quantifier { range } => range,
        QueryElemV::AlternationOpen { range } => range,
        QueryElemV::AlternationClose { range } => range,
    }
}

/// View of an element list.
pub open spec fn elems_view(s: Seq<QueryElem>) -> Seq<QueryElemV> {
    s.map_values(|e: QueryElem| e@)
}

/// A range whose start does not come after its end.
pub open spec fn spec_wf_range(r: Range) -> bool {
    crate::diag::spec_pos_le(r.start, r.end)
}

/// Every range an element carries is well-formed.
pub open spec fn spec_elem_wf(e: QueryElemV) -> bool {
    match e {
        QueryElemV::SupertypeNode { supertype_range, subtype_range, .. } => spec_wf_range(
            supertype_range,
        ) && spec_wf_range(subtype_range),
        QueryElemV::Predicate { name_range, args, range, .. } => spec_wf_range(name_range)
            && spec_wf_range(range) && forall|i: int|
            0 <= i < args.len() ==> spec_wf_range(spec_arg_range(#[trigger] args[i])),
        _ => spec_wf_range(spec_elem_range(e)),
    }
}

} // verus!
