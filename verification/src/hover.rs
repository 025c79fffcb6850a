use vstd::prelude::*;

use crate::diag::{Position, Range, range_contains, spec_range_contains};
use crate::grammar::{GrammarEntry, spec_lookup_supertype};
use crate::engine::{arg_range, spec_opt_grammar};
use crate::query::{PredArg, PredArgV, QueryElem, QueryElemV, elems_view, spec_arg_range,
    spec_elem_range};
use crate::registry::{
    Definition, DefinitionV, ValidatorRegistry, clone_definition, spec_capture_description,
    spec_lookup_def,
};

verus! {

/// What a hover shows for one element, as structured data; rendering to
/// markdown is left to the embedding.
pub enum HoverDoc {
    /// The static explanation of a syntax-error marker (also shown for
    /// the `ERROR` builtin node kind).
    ErrorExplanation,
    /// The static explanation of a missing-token marker and of the
    /// `MISSING` keyword.
    MissingExplanation,
    /// The static explanation of the `_` wildcard.
    WildcardExplanation,
    /// The static explanation of the `.` anchor.
    AnchorExplanation,
    /// The static explanation of the `?`, `*` and `+` quantifiers.
    QuantifierExplanation,
    /// The static explanation of `[` … `]` alternations.
    AlternationExplanation,
    /// The subtype listing of a registered supertype.
    Subtypes { supertype: String, subtypes: Vec<String> },
    /// The registered signature of a predicate or directive.
    Signature { definition: Definition, is_predicate: bool },
    /// The registered description of a capture name.
    CaptureInfo { name: String, description: String },
}

pub enum HoverDocV {
    ErrorExplanation,
    MissingExplanation,
    WildcardExplanation,
    AnchorExplanation,
    QuantifierExplanation,
    AlternationExplanation,
    Subtypes { supertype: Seq<char>, subtypes: Seq<Seq<char>> },
    Signature { definition: DefinitionV, is_predicate: bool },
    CaptureInfo { name: Seq<char>, description: Seq<char> },
}

impl View for HoverDoc {
    type V = HoverDocV;

    open spec fn view(&self) -> HoverDocV {
        match self {
            HoverDoc::ErrorExplanation => HoverDocV::ErrorExplanation,
            HoverDoc::MissingExplanation => HoverDocV::MissingExplanation,
            HoverDoc::WildcardExplanation => HoverDocV::WildcardExplanation,
            HoverDoc::AnchorExplanation => HoverDocV::AnchorExplanation,
            HoverDoc::QuantifierExplanation => HoverDocV::QuantifierExplanation,
            HoverDoc::AlternationExplanation => HoverDocV::AlternationExplanation,
            HoverDoc::Subtypes { supertype, subtypes } => HoverDocV::Subtypes {
                supertype: supertype@,
                subtypes: subtypes@.map_values(|s: String| s@),
            },
            HoverDoc::Signature { definition, is_predicate } => HoverDocV::Signature {
                definition: definition@,
                is_predicate: *is_predicate,
            },
            HoverDoc::CaptureInfo { name, description } => HoverDocV::CaptureInfo {
                name: name@,
                description: description@,
            },
        }
    }
}

/// One hover answer: the range it belongs to and what it shows.
pub struct HoverInfo {
    pub range: Range,
    pub doc: HoverDoc,
}

pub struct HoverInfoV {
    pub range: Range,
    pub doc: HoverDocV,
}

impl View for HoverInfo {
    type V = HoverInfoV;

    open spec fn view(&self) -> HoverInfoV {
        HoverInfoV { range: self.range, doc: self.doc@ }
    }
}

/// View of an optional context key argument.
pub open spec fn spec_opt_name(c: Option<&String>) -> Option<Seq<char>> {
    match c {
        Some(s) => Some(s@),
        None => None,
    }
}

/// The first element whose range contains `p`, if any.
pub open spec fn spec_elem_at(elems: Seq<QueryElemV>, p: Position) -> Option<QueryElemV>
    decreases elems.len(),
{
    if elems.len() == 0 {
        None
    } else if spec_range_contains(spec_elem_range(elems[0]), p) {
        Some(elems[0])
    } else {
        spec_elem_at(elems.skip(1), p)
    }
}

pub proof fn lemma_elem_at_prefix(elems: Seq<QueryElemV>, p: Position, i: int)
    requires
        0 <= i <= elems.len(),
        forall|j: int|
            0 <= j < i ==> !spec_range_contains(spec_elem_range(#[trigger] elems[j]), p),
    ensures
        spec_elem_at(elems, p) == spec_elem_at(elems.skip(i), p),
    decreases i,
{
    if i == 0 {
        assert(elems.skip(0) =~= elems);
    } else {
        assert forall|j: int|
            0 <= j < i - 1 implies !spec_range_contains(
            spec_elem_range(#[trigger] elems.skip(1)[j]),
            p,
        ) by {
            assert(elems.skip(1)[j] == elems[j + 1]);
        }
        lemma_elem_at_prefix(elems.skip(1), p, i - 1);
        assert(elems.skip(1).skip(i - 1) =~= elems.skip(i));
    }
}

/// The first invocation argument whose range contains `p`, if any.
pub open spec fn spec_arg_at(args: Seq<PredArgV>, p: Position) -> Option<PredArgV>
    decreases args.len(),
{
    if args.len() == 0 {
        None
    } else if spec_range_contains(spec_arg_range(args[0]), p) {
        Some(args[0])
    } else {
        spec_arg_at(args.skip(1), p)
    }
}

pub proof fn lemma_arg_at_prefix(args: Seq<PredArgV>, p: Position, i: int)
    requires
        0 <= i <= args.len(),
        forall|j: int| 0 <= j < i ==> !spec_range_contains(spec_arg_range(#[trigger] args[j]), p),
    ensures
        spec_arg_at(args, p) == spec_arg_at(args.skip(i), p),
    decreases i,
{
    if i == 0 {
        assert(args.skip(0) =~= args);
    } else {
        assert forall|j: int|
            0 <= j < i - 1 implies !spec_range_contains(
            spec_arg_range(#[trigger] args.skip(1)[j]),
            p,
        ) by {
            assert(args.skip(1)[j] == args[j + 1]);
        }
        lemma_arg_at_prefix(args.skip(1), p, i - 1);
        assert(args.skip(1).skip(i - 1) =~= args.skip(i));
    }
}

/// What hover shows for a capture argument of an invocation.
pub open spec fn spec_capture_hover(
    name: Seq<char>,
    range: Range,
    r: crate::registry::ValidatorRegistryV,
    context: Option<Seq<char>>,
) -> Option<HoverInfoV> {
    match context {
        None => None,
        Some(ctx) => match spec_capture_description(r.captures, ctx, name) {
            Some(desc) => Some(
                HoverInfoV { range, doc: HoverDocV::CaptureInfo { name: name, description: desc } },
            ),
            None => None,
        },
    }
}

/// What hover shows for one element. The classification matches
/// `spec_elem_diags` element for element: the two share the element
/// model, so documentation and diagnostics never disagree about what an
/// element is.
pub open spec fn spec_hover_doc(
    e: QueryElemV,
    p: Position,
    g: Option<crate::grammar::GrammarEntryV>,
    r: crate::registry::ValidatorRegistryV,
    context: Option<Seq<char>>,
) -> Option<HoverInfoV> {
    match e {
        QueryElemV::ErrorNode { range } => Some(
            HoverInfoV { range, doc: HoverDocV::ErrorExplanation },
        ),
        QueryElemV::MissingNode { range } => Some(
            HoverInfoV { range, doc: HoverDocV::MissingExplanation },
        ),
        QueryElemV::MissingKeyword { range } => Some(
            HoverInfoV { range, doc: HoverDocV::MissingExplanation },
        ),
        QueryElemV::Wildcard { range } => Some(
            HoverInfoV { range, doc: HoverDocV::WildcardExplanation },
        ),
        QueryElemV::Anchor { range } => Some(
            HoverInfoV { range, doc: HoverDocV::AnchorExplanation },
        ),
        QueryElemV::Quantifier { range } => Some(
            HoverInfoV { range, doc: HoverDocV::QuantifierExplanation },
        ),
        QueryElemV::AlternationOpen { range } => Some(
            HoverInfoV { range, doc: HoverDocV::AlternationExplanation },
        ),
        QueryElemV::AlternationClose { range } => Some(
            HoverInfoV { range, doc: HoverDocV::AlternationExplanation },
        ),
        QueryElemV::NamedNode { name, range } => {
            if name == "ERROR"@ {
                Some(HoverInfoV { range, doc: HoverDocV::ErrorExplanation })
            } else {
                match g {
                    None => None,
                    Some(gv) => match spec_lookup_supertype(gv.supertypes, name) {
                        Some(st) => Some(
                            HoverInfoV {
                                range,
                                doc: HoverDocV::Subtypes {
                                    supertype: name,
                                    subtypes: st.subtypes,
                                },
                            },
                        ),
                        None => None,
                    },
                }
            }
        },
        QueryElemV::SupertypeNode { supertype, supertype_range, .. } => match g {
            None => None,
            Some(gv) => match spec_lookup_supertype(gv.supertypes, supertype) {
                Some(st) => Some(
                    HoverInfoV {
                        range: supertype_range,
                        doc: HoverDocV::Subtypes { supertype: supertype, subtypes: st.subtypes },
                    },
                ),
                None => None,
            },
        },
        QueryElemV::FieldName { .. } => None,
        QueryElemV::AnonymousNode { .. } => None,
        QueryElemV::Capture { name, range } => spec_capture_hover(name, range, r, context),
        QueryElemV::Predicate { name, name_range, is_predicate, args, .. } => {
            if spec_range_contains(name_range, p) {
                match spec_lookup_def(
                    if is_predicate {
                        r.predicates
                    } else {
                        r.directives
                    },
                    name,
                ) {
                    Some(d) => Some(
                        HoverInfoV {
                            range: name_range,
                            doc: HoverDocV::Signature { definition: d, is_predicate },
                        },
                    ),
                    None => None,
                }
            } else {
                match spec_arg_at(args, p) {
                    None => None,
                    Some(a) => match a {
                        PredArgV::Capture { name: cname, range } => spec_capture_hover(
                            cname,
                            range,
                            r,
                            context,
                        ),
                        PredArgV::Str { .. } => None,
                        PredArgV::Num { .. } => None,
                        PredArgV::Ident { .. } => None,
                    },
                }
            }
        },
    }
}

/// What hover shows at position `p`: the classification of the first
/// element containing `p`, or nothing.
pub open spec fn spec_hover(
    elems: Seq<QueryElemV>,
    p: Position,
    g: Option<crate::grammar::GrammarEntryV>,
    r: crate::registry::ValidatorRegistryV,
    context: Option<Seq<char>>,
) -> Option<HoverInfoV> {
    match spec_elem_at(elems, p) {
        None => None,
        Some(e) => spec_hover_doc(e, p, g, r, context),
    }
}

/// The source range an element covers.
fn elem_range(e: &QueryElem) -> (r: Range)
    ensures
        r == spec_elem_range(e@),
{
    match e {
        QueryElem::ErrorNode { range } => *range,
        QueryElem::MissingNode { range } => *range,
        QueryElem::NamedNode { range, .. } => *range,
        QueryElem::SupertypeNode { supertype_range, .. } => *supertype_range,
        QueryElem::FieldName { range, .. } => *range,
        QueryElem::Predicate { range, .. } => *range,
        QueryElem::Capture { range, .. } => *range,
        QueryElem::AnonymousNode { range, .. } => *range,
        QueryElem::MissingKeyword { range } => *range,
        QueryElem::Wildcard { range } => *range,
        QueryElem::Anchor { range } => *range,
        QueryElem::Quantifier { range } => *range,
        QueryElem::AlternationOpen { range } => *range,
        QueryElem::AlternationClose { range } => *range,
    }
}

/// A field-for-field copy of a name list.
fn clone_names(v: &Vec<String>) -> (out: Vec<String>)
    ensures
        out@.map_values(|s: String| s@) == v@.map_values(|s: String| s@),
{
    let mut out: Vec<String> = Vec::new();
    let mut i: usize = 0;
    while i < v.len()
        invariant
            0 <= i <= v.len(),
            out@.len() == i,
            forall|j: int| 0 <= j < i ==> #[trigger] out@[j]@ == v@[j]@,
        decreases v.len() - i,
    {
        out.push(v[i].clone());
        i = i + 1;
    }
    proof {
        assert(out@.map_values(|s: String| s@) =~= v@.map_values(|s: String| s@));
    }
    out
}

/// What hover shows for one element, exactly as `spec_hover_doc` states
/// it.
#[verifier::loop_isolation(false)]
fn hover_doc(
    e: &QueryElem,
    p: Position,
    grammar: Option<&GrammarEntry>,
    reg: &ValidatorRegistry,
    context: Option<&String>,
) -> (r: Option<HoverInfo>)
    ensures
        match r {
            Some(h) => spec_hover_doc(e@, p, spec_opt_grammar(grammar), reg@, spec_opt_name(context))
                == Some(h@),
            None => spec_hover_doc(e@, p, spec_opt_grammar(grammar), reg@, spec_opt_name(context))
                is None,
        },
{
    match e {
        QueryElem::ErrorNode { range } => Some(
            HoverInfo { range: *range, doc: HoverDoc::ErrorExplanation },
        ),
        QueryElem::MissingNode { range } => Some(
            HoverInfo { range: *range, doc: HoverDoc::MissingExplanation },
        ),
        QueryElem::MissingKeyword { range } => Some(
            HoverInfo { range: *range, doc: HoverDoc::MissingExplanation },
        ),
        QueryElem::Wildcard { range } => Some(
            HoverInfo { range: *range, doc: HoverDoc::WildcardExplanation },
        ),
        QueryElem::Anchor { range } => Some(
            HoverInfo { range: *range, doc: HoverDoc::AnchorExplanation },
        ),
        QueryElem::Quantifier { range } => Some(
            HoverInfo { range: *range, doc: HoverDoc::QuantifierExplanation },
        ),
        QueryElem::AlternationOpen { range } => Some(
            HoverInfo { range: *range, doc: HoverDoc::AlternationExplanation },
        ),
        QueryElem::AlternationClose { range } => Some(
            HoverInfo { range: *range, doc: HoverDoc::AlternationExplanation },
        ),
        QueryElem::NamedNode { name, range } => {
            let error_kind = String::from_str("ERROR");
            if *name == error_kind {
                Some(HoverInfo { range: *range, doc: HoverDoc::ErrorExplanation })
            } else {
                match grammar {
                    None => None,
                    Some(g) => match g.lookup_supertype(name) {
                        Some(st) => Some(
                            HoverInfo {
                                range: *range,
                                doc: HoverDoc::Subtypes {
                                    supertype: name.clone(),
                                    subtypes: clone_names(&st.subtypes),
                                },
                            },
                        ),
                        None => None,
                    },
                }
            }
        },
        QueryElem::SupertypeNode { supertype, supertype_range, .. } => match grammar {
            None => None,
            Some(g) => match g.lookup_supertype(supertype) {
                Some(st) => Some(
                    HoverInfo {
                        range: *supertype_range,
                        doc: HoverDoc::Subtypes {
                            supertype: supertype.clone(),
                            subtypes: clone_names(&st.subtypes),
                        },
                    },
                ),
                None => None,
            },
        },
        QueryElem::FieldName { .. } => None,
        QueryElem::AnonymousNode { .. } => None,
        QueryElem::Capture { name, range } => capture_hover(name, *range, reg, context),
        QueryElem::Predicate { name, name_range, is_predicate, args, .. } => {
            if range_contains(*name_range, p) {
                let found = if *is_predicate {
                    reg.predicate(name)
                } else {
                    reg.directive(name)
                };
                match found {
                    Some(d) => Some(
                        HoverInfo {
                            range: *name_range,
                            doc: HoverDoc::Signature {
                                definition: clone_definition(d),
                                is_predicate: *is_predicate,
                            },
                        },
                    ),
                    None => None,
                }
            } else {
                let ghost av = crate::query::args_view(args@);
                let mut i: usize = 0;
                while i < args.len()
                    invariant
                        0 <= i <= args.len(),
                        av == crate::query::args_view(args@),
                        av.len() == args@.len(),
                        forall|j: int|
                            0 <= j < i ==> !spec_range_contains(
                                spec_arg_range(#[trigger] av[j]),
                                p,
                            ),
                    decreases args.len() - i,
                {
                    let rng = arg_range(&args[i]);
                    if range_contains(rng, p) {
                        proof {
                            lemma_arg_at_prefix(av, p, i as int);
                            assert(av.skip(i as int)[0] == av[i as int]);
                            assert(av[i as int] == args@[i as int]@);
                        }
                        return match &args[i] {
                            PredArg::Capture { name: cname, range } => capture_hover(
                                cname,
                                *range,
                                reg,
                                context,
                            ),
                            PredArg::Str { .. } => None,
                            PredArg::Num { .. } => None,
                            PredArg::Ident { .. } => None,
                        };
                    }
                    assert(!spec_range_contains(spec_arg_range(av[i as int]), p));
                    i = i + 1;
                }
                proof {
                    lemma_arg_at_prefix(av, p, av.len() as int);
                    assert(av.skip(av.len() as int).len() == 0);
                }
                None
            }
        },
    }
}

/// What hover shows for a capture, exactly as `spec_capture_hover`
/// states it.
fn capture_hover(
    name: &String,
    range: Range,
    reg: &ValidatorRegistry,
    context: Option<&String>,
) -> (r: Option<HoverInfo>)
    ensures
        match r {
            Some(h) => spec_capture_hover(name@, range, reg@, spec_opt_name(context)) == Some(h@),
            None => spec_capture_hover(name@, range, reg@, spec_opt_name(context)) is None,
        },
{
    match context {
        None => None,
        Some(ctx) => match reg.capture_description(ctx, name) {
            Some(desc) => Some(
                HoverInfo {
                    range,
                    doc: HoverDoc::CaptureInfo { name: name.clone(), description: desc.clone() },
                },
            ),
            None => None,
        },
    }
}

/// The documentation at position `p` in the element sequence, exactly as
/// `spec_hover` states it: the first element whose range contains `p`
/// is classified, with the grammar entry feeding subtype listings and
/// the registry feeding signatures and capture descriptions.
pub fn hover_at(
    elems: &Vec<QueryElem>,
    p: Position,
    grammar: Option<&GrammarEntry>,
    reg: &ValidatorRegistry,
    context: Option<&String>,
) -> (r: Option<HoverInfo>)
    ensures
        match r {
            Some(h) => spec_hover(
                elems_view(elems@),
                p,
                spec_opt_grammar(grammar),
                reg@,
                spec_opt_name(context),
            ) == Some(h@),
            None => spec_hover(
                elems_view(elems@),
                p,
                spec_opt_grammar(grammar),
                reg@,
                spec_opt_name(context),
            ) is None,
        },
{
    let ghost ev = elems_view(elems@);
    let mut i: usize = 0;
    while i < elems.len()
        invariant
            0 <= i <= elems.len(),
            ev == elems_view(elems@),
            ev.len() == elems@.len(),
            forall|j: int|
                0 <= j < i ==> !spec_range_contains(spec_elem_range(#[trigger] ev[j]), p),
        decreases elems.len() - i,
    {
        let rng = elem_range(&elems[i]);
        if range_contains(rng, p) {
            proof {
                lemma_elem_at_prefix(ev, p, i as int);
                assert(ev.skip(i as int)[0] == ev[i as int]);
                assert(ev[i as int] == elems@[i as int]@);
            }
            return hover_doc(&elems[i], p, grammar, reg, context);
        }
        assert(!spec_range_contains(spec_elem_range(ev[i as int]), p));
        i = i + 1;
    }
    proof {
        lemma_elem_at_prefix(ev, p, ev.len() as int);
        assert(ev.skip(ev.len() as int).len() == 0);
    }
    None
}

} // verus!
