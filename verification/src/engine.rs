use vstd::prelude::*;

use crate::diag::{Diagnostic, DiagnosticV, Message, MessageV, Range, Severity};
use crate::grammar::{GrammarEntry, GrammarEntryV, spec_is_supertype, spec_lookup_supertype};
use crate::query::{
    PredArg, PredArgV, QueryElem, QueryElemV, args_view, elems_view, spec_arg_range,
    spec_elem_range, spec_elem_wf, spec_wf_range,
};
use crate::registry::{
    Arity, DefinitionV, ParamSpecV, TypeTag, ValidatorRegistry, ValidatorRegistryV,
    spec_lookup_def,
};

verus! {

/// View of a diagnostic list.
pub open spec fn diags_view(s: Seq<Diagnostic>) -> Seq<DiagnosticV> {
    s.map_values(|d: Diagnostic| d@)
}

/// View of an optional grammar entry argument.
pub open spec fn spec_opt_grammar(g: Option<&GrammarEntry>) -> Option<GrammarEntryV> {
    match g {
        Some(e) => Some(e@),
        None => None,
    }
}

/// Whether an argument's shape satisfies a parameter's type tag.
pub open spec fn spec_type_matches(tag: TypeTag, a: PredArgV) -> bool {
    match a {
        PredArgV::Capture { .. } => tag is Capture,
        PredArgV::Str { .. } => tag is Str,
        PredArgV::Num { .. } => tag is Num,
        PredArgV::Ident { .. } => false,
    }
}

/// Whether the last parameter absorbs any number of trailing arguments.
pub open spec fn spec_variadic(params: Seq<ParamSpecV>) -> bool {
    params.len() > 0 && params[params.len() - 1].arity is ZeroOrMore
}

/// The number of arguments the signature requires.
pub open spec fn spec_required(params: Seq<ParamSpecV>) -> int {
    if spec_variadic(params) {
        params.len() - 1
    } else {
        params.len() as int
    }
}

/// Whether an argument count fits the signature.
pub open spec fn spec_arity_ok(params: Seq<ParamSpecV>, n: int) -> bool {
    if spec_variadic(params) {
        n >= spec_required(params)
    } else {
        n == spec_required(params)
    }
}

/// The type tag expected at argument position `i`; trailing arguments of
/// a variadic signature reuse the last parameter's tag.
pub open spec fn spec_expected_tag(params: Seq<ParamSpecV>, i: int) -> TypeTag {
    if i < params.len() {
        params[i].type_tag
    } else {
        params[params.len() - 1].type_tag
    }
}

/// The type-mismatch warnings for arguments `i..`, in argument order.
pub open spec fn spec_arg_diags(
    name: Seq<char>,
    params: Seq<ParamSpecV>,
    args: Seq<PredArgV>,
    i: int,
) -> Seq<DiagnosticV>
    decreases args.len() - i,
{
    if i < 0 || i >= args.len() {
        Seq::empty()
    } else {
        let rest = spec_arg_diags(name, params, args, i + 1);
        if spec_type_matches(spec_expected_tag(params, i), args[i]) {
            rest
        } else {
            seq![
                DiagnosticV {
                    range: spec_arg_range(args[i]),
                    severity: Severity::Warning,
                    message: MessageV::TypeMismatch {
                        name: name,
                        arg_index: i as usize,
                        expected: spec_expected_tag(params, i),
                    },
                },
            ] + rest
        }
    }
}

/// The diagnostics of one predicate or directive invocation, resolved
/// against the given definition list: an unknown name is one warning, a
/// bad argument count is one warning, and otherwise each argument whose
/// shape does not match its parameter's tag is one warning.
pub open spec fn spec_invocation_diags(
    defs: Seq<DefinitionV>,
    is_predicate: bool,
    name: Seq<char>,
    name_range: Range,
    args: Seq<PredArgV>,
) -> Seq<DiagnosticV> {
    match spec_lookup_def(defs, name) {
        None => seq![
            DiagnosticV {
                range: name_range,
                severity: Severity::Warning,
                message: if is_predicate {
                    MessageV::UnknownPredicate { name: name }
                } else {
                    MessageV::UnknownDirective { name: name }
                },
            },
        ],
        Some(d) => {
            if !spec_arity_ok(d.parameters, args.len() as int) {
                seq![
                    DiagnosticV {
                        range: name_range,
                        severity: Severity::Warning,
                        message: MessageV::ArityMismatch {
                            name: name,
                            expected: spec_required(d.parameters) as usize,
                            variadic: spec_variadic(d.parameters),
                            actual: args.len() as usize,
                        },
                    },
                ]
            } else {
                spec_arg_diags(name, d.parameters, args, 0)
            }
        },
    }
}

/// The diagnostics of one element. This single dispatch table is shared
/// by validation and by documentation lookup, so the two never disagree
/// about what an element is.
///
/// Parse-level markers are always errors. Node, supertype and field
/// references are checked only when a grammar entry is present: a missing
/// entry is a configuration gap, not a document defect. `ERROR` and
/// `MISSING` are query-language builtins that match the target parser's
/// own marker nodes, so they pass the node-kind check. Predicate and
/// directive names live in an open namespace, so their problems are
/// warnings, not errors. Captures, anonymous nodes, wildcards, anchors,
/// quantifiers and alternation brackets never produce diagnostics.
pub open spec fn spec_elem_diags(
    e: QueryElemV,
    g: Option<GrammarEntryV>,
    r: ValidatorRegistryV,
) -> Seq<DiagnosticV> {
    match e {
        QueryElemV::ErrorNode { range } => seq![
            DiagnosticV { range, severity: Severity::Error, message: MessageV::SyntaxError },
        ],
        QueryElemV::MissingNode { range } => seq![
            DiagnosticV { range, severity: Severity::Error, message: MessageV::MissingToken },
        ],
        QueryElemV::NamedNode { name, range } => match g {
            None => Seq::empty(),
            Some(gv) => {
                if name == "ERROR"@ || name == "MISSING"@ || gv.node_kinds.contains(name)
                    || spec_is_supertype(gv, name) {
                    Seq::empty()
                } else {
                    seq![
                        DiagnosticV {
                            range,
                            severity: Severity::Error,
                            message: MessageV::UnknownNodeKind { name: name },
                        },
                    ]
                }
            },
        },
        QueryElemV::SupertypeNode { supertype, supertype_range, subtype, subtype_range } => match g {
            None => Seq::empty(),
            Some(gv) => match spec_lookup_supertype(gv.supertypes, supertype) {
                None => seq![
                    DiagnosticV {
                        range: supertype_range,
                        severity: Severity::Error,
                        message: MessageV::UnknownSupertype { name: supertype },
                    },
                ],
                Some(s) => {
                    if s.subtypes.contains(subtype) {
                        Seq::empty()
                    } else {
                        seq![
                            DiagnosticV {
                                range: subtype_range,
                                severity: Severity::Error,
                                message: MessageV::InvalidSubtype {
                                    supertype: supertype,
                                    name: subtype,
                                },
                            },
                        ]
                    }
                },
            },
        },
        QueryElemV::FieldName { name, range } => match g {
            None => Seq::empty(),
            Some(gv) => {
                if gv.field_names.contains(name) {
                    Seq::empty()
                } else {
                    seq![
                        DiagnosticV {
                            range,
                            severity: Severity::Error,
                            message: MessageV::UnknownField { name: name },
                        },
                    ]
                }
            },
        },
        QueryElemV::Predicate { name, name_range, is_predicate, args, range } => {
            spec_invocation_diags(
                if is_predicate {
                    r.predicates
                } else {
                    r.directives
                },
                is_predicate,
                name,
                name_range,
                args,
            )
        },
        QueryElemV::Capture { .. } => Seq::empty(),
        QueryElemV::AnonymousNode { .. } => Seq::empty(),
        QueryElemV::MissingKeyword { .. } => Seq::empty(),
        QueryElemV::Wildcard { .. } => Seq::empty(),
        QueryElemV::Anchor { .. } => Seq::empty(),
        QueryElemV::Quantifier { .. } => Seq::empty(),
        QueryElemV::AlternationOpen { .. } => Seq::empty(),
        QueryElemV::AlternationClose { .. } => Seq::empty(),
    }
}

/// The diagnostics of a whole element sequence, concatenated in element
/// (pre-order document) order.
pub open spec fn spec_validate(
    elems: Seq<QueryElemV>,
    g: Option<GrammarEntryV>,
    r: ValidatorRegistryV,
) -> Seq<DiagnosticV>
    decreases elems.len(),
{
    if elems.len() == 0 {
        Seq::empty()
    } else {
        spec_elem_diags(elems[0], g, r) + spec_validate(elems.skip(1), g, r)
    }
}

/// An empty diagnostic list.
fn no_diags() -> (r: Vec<Diagnostic>)
    ensures
        diags_view(r@) == Seq::<DiagnosticV>::empty(),
{
    let v: Vec<Diagnostic> = Vec::new();
    proof {
        assert(diags_view(v@) =~= Seq::<DiagnosticV>::empty());
    }
    v
}

/// A one-element diagnostic list.
fn one_diag(d: Diagnostic) -> (r: Vec<Diagnostic>)
    ensures
        diags_view(r@) == seq![d@],
{
    let ghost dv = d@;
    let mut v: Vec<Diagnostic> = Vec::new();
    v.push(d);
    proof {
        assert(diags_view(v@) =~= seq![dv]);
    }
    v
}

/// The source range an argument covers.
pub(crate) fn arg_range(a: &PredArg) -> (r: Range)
    ensures
        r == spec_arg_range(a@),
{
    match a {
        PredArg::Capture { range, .. } => *range,
        PredArg::Str { range, .. } => *range,
        PredArg::Num { range, .. } => *range,
        PredArg::Ident { range, .. } => *range,
    }
}

/// Whether an argument's shape satisfies a parameter's type tag.
fn type_matches(tag: TypeTag, a: &PredArg) -> (r: bool)
    ensures
        r == spec_type_matches(tag, a@),
{
    match a {
        PredArg::Capture { .. } => matches!(tag, TypeTag::Capture),
        PredArg::Str { .. } => matches!(tag, TypeTag::Str),
        PredArg::Num { .. } => matches!(tag, TypeTag::Num),
        PredArg::Ident { .. } => false,
    }
}

/// The diagnostics of one element, exactly as `spec_elem_diags` states
/// them.
pub fn elem_diagnostics(
    e: &QueryElem,
    grammar: Option<&GrammarEntry>,
    reg: &ValidatorRegistry,
) -> (out: Vec<Diagnostic>)
    ensures
        diags_view(out@) == spec_elem_diags(e@, spec_opt_grammar(grammar), reg@),
{
    match e {
        QueryElem::ErrorNode { range } => one_diag(
            Diagnostic { range: *range, severity: Severity::Error, message: Message::SyntaxError },
        ),
        QueryElem::MissingNode { range } => one_diag(
            Diagnostic { range: *range, severity: Severity::Error, message: Message::MissingToken },
        ),
        QueryElem::NamedNode { name, range } => match grammar {
            None => no_diags(),
            Some(g) => {
                let error_kind = String::from_str("ERROR");
                let missing_kind = String::from_str("MISSING");
                if *name == error_kind || *name == missing_kind || g.has_node_kind(name)
                    || g.is_supertype(name) {
                    no_diags()
                } else {
                    one_diag(
                        Diagnostic {
                            range: *range,
                            severity: Severity::Error,
                            message: Message::UnknownNodeKind { name: name.clone() },
                        },
                    )
                }
            },
        },
        QueryElem::SupertypeNode { supertype, supertype_range, subtype, subtype_range } => {
            match grammar {
                None => no_diags(),
                Some(g) => match g.lookup_supertype(supertype) {
                    None => one_diag(
                        Diagnostic {
                            range: *supertype_range,
                            severity: Severity::Error,
                            message: Message::UnknownSupertype { name: supertype.clone() },
                        },
                    ),
                    Some(s) => {
                        if crate::grammar::contains_name(&s.subtypes, subtype) {
                            no_diags()
                        } else {
                            one_diag(
                                Diagnostic {
                                    range: *subtype_range,
                                    severity: Severity::Error,
                                    message: Message::InvalidSubtype {
                                        supertype: supertype.clone(),
                                        name: subtype.clone(),
                                    },
                                },
                            )
                        }
                    },
                },
            }
        },
        QueryElem::FieldName { name, range } => match grammar {
            None => no_diags(),
            Some(g) => {
                if g.has_field(name) {
                    no_diags()
                } else {
                    one_diag(
                        Diagnostic {
                            range: *range,
                            severity: Severity::Error,
                            message: Message::UnknownField { name: name.clone() },
                        },
                    )
                }
            },
        },
        QueryElem::Predicate { name, name_range, is_predicate, args, range } => {
            let found = if *is_predicate {
                reg.predicate(name)
            } else {
                reg.directive(name)
            };
            let ghost defs = if *is_predicate {
                reg@.predicates
            } else {
                reg@.directives
            };
            match found {
                None => {
                    let message = if *is_predicate {
                        Message::UnknownPredicate { name: name.clone() }
                    } else {
                        Message::UnknownDirective { name: name.clone() }
                    };
                    one_diag(
                        Diagnostic { range: *name_range, severity: Severity::Warning, message },
                    )
                },
                Some(d) => {
                    let nparams = d.parameters.len();
                    let variadic = nparams > 0 && matches!(
                        d.parameters[nparams - 1].arity,
                        Arity::ZeroOrMore,
                    );
                    proof {
                        assert(d@.parameters.len() == nparams);
                        if nparams > 0 {
                            assert(d@.parameters[nparams - 1].arity == d.parameters@[nparams
                                - 1]@.arity);
                        }
                        assert(variadic == spec_variadic(d@.parameters));
                    }
                    let required = if variadic {
                        nparams - 1
                    } else {
                        nparams
                    };
                    let arity_ok = if variadic {
                        args.len() >= required
                    } else {
                        args.len() == required
                    };
                    proof {
                        assert(required as int == spec_required(d@.parameters));
                        assert(args_view(args@).len() == args@.len());
                        assert(arity_ok == spec_arity_ok(d@.parameters, args@.len() as int));
                    }
                    if !arity_ok {
                        one_diag(
                            Diagnostic {
                                range: *name_range,
                                severity: Severity::Warning,
                                message: Message::ArityMismatch {
                                    name: name.clone(),
                                    expected: required,
                                    variadic,
                                    actual: args.len(),
                                },
                            },
                        )
                    } else {
                        let ghost argsv = args_view(args@);
                        let ghost params = d@.parameters;
                        let mut out: Vec<Diagnostic> = Vec::new();
                        let mut i: usize = 0;
                        proof {
                            assert(diags_view(out@) =~= Seq::<DiagnosticV>::empty());
                            assert(diags_view(out@) + spec_arg_diags(name@, params, argsv, 0)
                                =~= spec_arg_diags(name@, params, argsv, 0));
                        }
                        while i < args.len()
                            invariant
                                0 <= i <= args.len(),
                                argsv == args_view(args@),
                                argsv.len() == args@.len(),
                                params == d@.parameters,
                                params.len() == nparams,
                                nparams == d.parameters.len(),
                                variadic == spec_variadic(params),
                                required as int == spec_required(params),
                                spec_arity_ok(params, args@.len() as int),
                                spec_arg_diags(name@, params, argsv, 0) == diags_view(out@)
                                    + spec_arg_diags(name@, params, argsv, i as int),
                            decreases args.len() - i,
                        {
                            let tag = if i < nparams {
                                d.parameters[i].type_tag
                            } else {
                                d.parameters[nparams - 1].type_tag
                            };
                            proof {
                                assert(argsv[i as int] == args@[i as int]@);
                                if i < nparams {
                                    assert(params[i as int].type_tag == d.parameters@[i
                                        as int]@.type_tag);
                                } else {
                                    assert(params[nparams - 1].type_tag == d.parameters@[nparams
                                        - 1]@.type_tag);
                                }
                                assert(tag == spec_expected_tag(params, i as int));
                            }
                            let ghost prev = out@;
                            if !type_matches(tag, &args[i]) {
                                let dnew = Diagnostic {
                                    range: arg_range(&args[i]),
                                    severity: Severity::Warning,
                                    message: Message::TypeMismatch {
                                        name: name.clone(),
                                        arg_index: i,
                                        expected: tag,
                                    },
                                };
                                let ghost dnewv = dnew@;
                                out.push(dnew);
                                proof {
                                    assert(diags_view(out@) =~= diags_view(prev).push(dnewv));
                                    assert(spec_arg_diags(name@, params, argsv, i as int)
                                        == seq![dnewv] + spec_arg_diags(
                                        name@,
                                        params,
                                        argsv,
                                        i + 1,
                                    ));
                                    assert(diags_view(prev).push(dnewv) =~= diags_view(prev)
                                        + seq![dnewv]);
                                    assert((diags_view(prev) + seq![dnewv]) + spec_arg_diags(
                                        name@,
                                        params,
                                        argsv,
                                        i + 1,
                                    ) =~= diags_view(prev) + (seq![dnewv] + spec_arg_diags(
                                        name@,
                                        params,
                                        argsv,
                                        i + 1,
                                    )));
                                }
                            } else {
                                proof {
                                    assert(spec_arg_diags(name@, params, argsv, i as int)
                                        == spec_arg_diags(name@, params, argsv, i + 1));
                                }
                            }
                            i = i + 1;
                        }
                        proof {
                            assert(spec_arg_diags(name@, params, argsv, args@.len() as int)
                                =~= Seq::<DiagnosticV>::empty());
                            assert(diags_view(out@) + Seq::<DiagnosticV>::empty() =~= diags_view(
                                out@,
                            ));
                        }
                        out
                    }
                },
            }
        },
        QueryElem::Capture { .. } => no_diags(),
        QueryElem::AnonymousNode { .. } => no_diags(),
        QueryElem::MissingKeyword { .. } => no_diags(),
        QueryElem::Wildcard { .. } => no_diags(),
        QueryElem::Anchor { .. } => no_diags(),
        QueryElem::Quantifier { .. } => no_diags(),
        QueryElem::AlternationOpen { .. } => no_diags(),
        QueryElem::AlternationClose { .. } => no_diags(),
    }
}

/// Walk the element sequence once and emit every element's diagnostics,
/// in pre-order document order, exactly as `spec_validate` states them.
pub fn validate(
    elems: &Vec<QueryElem>,
    grammar: Option<&GrammarEntry>,
    reg: &ValidatorRegistry,
) -> (out: Vec<Diagnostic>)
    ensures
        diags_view(out@) == spec_validate(elems_view(elems@), spec_opt_grammar(grammar), reg@),
{
    let ghost ev = elems_view(elems@);
    let ghost gv = spec_opt_grammar(grammar);
    let mut out: Vec<Diagnostic> = Vec::new();
    let mut i: usize = 0;
    proof {
        assert(diags_view(out@) =~= Seq::<DiagnosticV>::empty());
        assert(ev.skip(0) =~= ev);
        assert(diags_view(out@) + spec_validate(ev, gv, reg@) =~= spec_validate(ev, gv, reg@));
    }
    while i < elems.len()
        invariant
            0 <= i <= elems.len(),
            ev == elems_view(elems@),
            ev.len() == elems@.len(),
            gv == spec_opt_grammar(grammar),
            spec_validate(ev, gv, reg@) == diags_view(out@) + spec_validate(
                ev.skip(i as int),
                gv,
                reg@,
            ),
        decreases elems.len() - i,
    {
        let mut ds = elem_diagnostics(&elems[i], grammar, reg);
        let ghost dsv = diags_view(ds@);
        let ghost prev = out@;
        out.append(&mut ds);
        proof {
            assert(ev.skip(i as int)[0] == ev[i as int]);
            assert(ev[i as int] == elems@[i as int]@);
            assert(spec_validate(ev.skip(i as int), gv, reg@) == spec_elem_diags(
                ev[i as int],
                gv,
                reg@,
            ) + spec_validate(ev.skip(i as int).skip(1), gv, reg@));
            assert(ev.skip(i as int).skip(1) =~= ev.skip(i + 1));
            assert(diags_view(out@) =~= diags_view(prev) + dsv);
            assert((diags_view(prev) + dsv) + spec_validate(ev.skip(i + 1), gv, reg@)
                =~= diags_view(prev) + (dsv + spec_validate(ev.skip(i + 1), gv, reg@)));
        }
        i = i + 1;
    }
    proof {
        assert(ev.skip(ev.len() as int).len() == 0);
        assert(diags_view(out@) + Seq::<DiagnosticV>::empty() =~= diags_view(out@));
    }
    out
}

/// Whether `ds` holds an Error diagnostic whose range is exactly `range`.
pub open spec fn spec_has_error_covering(ds: Seq<DiagnosticV>, range: Range) -> bool {
    exists|k: int|
        0 <= k < ds.len() && (#[trigger] ds[k]).severity is Error && ds[k].range == range
}

/// Every parse-level marker is reported: whenever element `i` is an
/// error or missing marker, the diagnostics hold an Error covering its
/// range, whatever the grammar entry and registry hold.
pub proof fn lemma_parse_marker_reported(
    elems: Seq<QueryElemV>,
    g: Option<GrammarEntryV>,
    r: ValidatorRegistryV,
    i: int,
)
    requires
        0 <= i < elems.len(),
        elems[i] is ErrorNode || elems[i] is MissingNode,
    ensures
        spec_has_error_covering(spec_validate(elems, g, r), spec_elem_range(elems[i])),
    decreases i,
{
    let ds = spec_validate(elems, g, r);
    let head = spec_elem_diags(elems[0], g, r);
    let tail = spec_validate(elems.skip(1), g, r);
    assert(ds == head + tail);
    if i == 0 {
        assert(head.len() == 1);
        assert(ds[0] == head[0]);
        assert(ds[0].severity is Error);
        assert(ds[0].range == spec_elem_range(elems[0]));
    } else {
        assert(elems.skip(1)[i - 1] == elems[i]);
        lemma_parse_marker_reported(elems.skip(1), g, r, i - 1);
        let k = choose|k: int|
            0 <= k < tail.len() && (#[trigger] tail[k]).severity is Error && tail[k].range
                == spec_elem_range(elems[i]);
        assert(ds[head.len() + k] == tail[k]);
    }
}

/// A node-kind reference is flagged exactly when a grammar entry is
/// present and the name is neither a builtin marker kind, a node kind,
/// nor a supertype name — and then with exactly one Error naming it.
pub proof fn lemma_node_kind_checked(
    name: Seq<char>,
    range: Range,
    g: GrammarEntryV,
    r: ValidatorRegistryV,
)
    ensures
        (name == "ERROR"@ || name == "MISSING"@ || g.node_kinds.contains(name)
            || spec_is_supertype(g, name)) ==> spec_elem_diags(
            QueryElemV::NamedNode { name, range },
            Some(g),
            r,
        ) == Seq::<DiagnosticV>::empty(),
        !(name == "ERROR"@ || name == "MISSING"@ || g.node_kinds.contains(name)
            || spec_is_supertype(g, name)) ==> spec_elem_diags(
            QueryElemV::NamedNode { name, range },
            Some(g),
            r,
        ) == seq![
            DiagnosticV {
                range,
                severity: Severity::Error,
                message: MessageV::UnknownNodeKind { name: name },
            },
        ],
{
}

/// Without a grammar entry the node, supertype and field checks are
/// skipped entirely: a configuration gap is not a document defect.
pub proof fn lemma_degraded_mode_skips_grammar_checks(e: QueryElemV, r: ValidatorRegistryV)
    requires
        e is NamedNode || e is SupertypeNode || e is FieldName,
    ensures
        spec_elem_diags(e, None, r) == Seq::<DiagnosticV>::empty(),
{
}

/// If every argument of a predicate-style invocation matches its
/// expected tag from `i` on, no type warnings are produced.
pub proof fn lemma_arg_diags_all_match(
    name: Seq<char>,
    params: Seq<ParamSpecV>,
    args: Seq<PredArgV>,
    i: int,
)
    requires
        0 <= i <= args.len(),
        forall|j: int|
            i <= j < args.len() ==> spec_type_matches(
                spec_expected_tag(params, j),
                #[trigger] args[j],
            ),
    ensures
        spec_arg_diags(name, params, args, i) == Seq::<DiagnosticV>::empty(),
    decreases args.len() - i,
{
    if i < args.len() {
        lemma_arg_diags_all_match(name, params, args, i + 1);
    }
}

/// An invocation of a name the registry does not define yields exactly
/// one Warning naming it; installing a registry that defines the name
/// with a signature the same arguments fit makes the same element —
/// the document is not re-parsed — yield no diagnostic at all.
pub proof fn lemma_install_removes_warning(
    name: Seq<char>,
    name_range: Range,
    is_predicate: bool,
    args: Seq<PredArgV>,
    range: Range,
    g: Option<GrammarEntryV>,
    r_old: ValidatorRegistryV,
    r_new: ValidatorRegistryV,
    d: DefinitionV,
)
    requires
        spec_lookup_def(
            if is_predicate {
                r_old.predicates
            } else {
                r_old.directives
            },
            name,
        ) is None,
        spec_lookup_def(
            if is_predicate {
                r_new.predicates
            } else {
                r_new.directives
            },
            name,
        ) == Some(d),
        spec_arity_ok(d.parameters, args.len() as int),
        forall|j: int|
            0 <= j < args.len() ==> spec_type_matches(
                spec_expected_tag(d.parameters, j),
                #[trigger] args[j],
            ),
    ensures
        spec_elem_diags(
            QueryElemV::Predicate { name, name_range, is_predicate, args, range },
            g,
            r_old,
        ) == seq![
            DiagnosticV {
                range: name_range,
                severity: Severity::Warning,
                message: if is_predicate {
                    MessageV::UnknownPredicate { name: name }
                } else {
                    MessageV::UnknownDirective { name: name }
                },
            },
        ],
        spec_elem_diags(
            QueryElemV::Predicate { name, name_range, is_predicate, args, range },
            g,
            r_new,
        ) == Seq::<DiagnosticV>::empty(),
{
    lemma_arg_diags_all_match(name, d.parameters, args, 0);
}

/// Type warnings only ever cover argument ranges: well-formed arguments
/// give well-formed warning ranges.
proof fn lemma_arg_diag_ranges_wf(
    name: Seq<char>,
    params: Seq<ParamSpecV>,
    args: Seq<PredArgV>,
    i: int,
)
    requires
        forall|k: int| 0 <= k < args.len() ==> spec_wf_range(spec_arg_range(#[trigger] args[k])),
    ensures
        forall|k: int|
            0 <= k < spec_arg_diags(name, params, args, i).len() ==> spec_wf_range(
                (#[trigger] spec_arg_diags(name, params, args, i)[k]).range,
            ),
    decreases args.len() - i,
{
    if 0 <= i < args.len() {
        lemma_arg_diag_ranges_wf(name, params, args, i + 1);
    }
}

/// Every diagnostic of one well-formed element covers a well-formed
/// range.
pub proof fn lemma_elem_diag_ranges_wf(e: QueryElemV, g: Option<GrammarEntryV>, r: ValidatorRegistryV)
    requires
        spec_elem_wf(e),
    ensures
        forall|k: int|
            0 <= k < spec_elem_diags(e, g, r).len() ==> spec_wf_range(
                (#[trigger] spec_elem_diags(e, g, r)[k]).range,
            ),
{
    match e {
        QueryElemV::Predicate { name, name_range, is_predicate, args, range } => {
            let defs = if is_predicate {
                r.predicates
            } else {
                r.directives
            };
            match spec_lookup_def(defs, name) {
                None => {},
                Some(d) => {
                    lemma_arg_diag_ranges_wf(name, d.parameters, args, 0);
                },
            }
        },
        _ => {},
    }
}

/// Every diagnostic of a well-formed element sequence — a parsed
/// document — covers a well-formed range, whatever the grammar entry
/// and registry hold.
pub proof fn lemma_diag_ranges_wf(
    elems: Seq<QueryElemV>,
    g: Option<GrammarEntryV>,
    r: ValidatorRegistryV,
)
    requires
        forall|i: int| 0 <= i < elems.len() ==> spec_elem_wf(#[trigger] elems[i]),
    ensures
        forall|k: int|
            0 <= k < spec_validate(elems, g, r).len() ==> spec_wf_range(
                (#[trigger] spec_validate(elems, g, r)[k]).range,
            ),
    decreases elems.len(),
{
    if elems.len() > 0 {
        let ds = spec_validate(elems, g, r);
        let head = spec_elem_diags(elems[0], g, r);
        let tail = spec_validate(elems.skip(1), g, r);
        lemma_elem_diag_ranges_wf(elems[0], g, r);
        assert forall|i: int| 0 <= i < elems.skip(1).len() implies spec_elem_wf(
            #[trigger] elems.skip(1)[i],
        ) by {
            assert(elems.skip(1)[i] == elems[i + 1]);
        }
        lemma_diag_ranges_wf(elems.skip(1), g, r);
        assert forall|k: int| 0 <= k < ds.len() implies spec_wf_range(
            (#[trigger] ds[k]).range,
        ) by {
            if k < head.len() {
                assert(ds[k] == head[k]);
            } else {
                assert(ds[k] == tail[k - head.len()]);
            }
        }
    }
}

/// The number of node-kind references to `name` among the elements.
pub open spec fn spec_count_refs(elems: Seq<QueryElemV>, name: Seq<char>) -> nat
    decreases elems.len(),
{
    if elems.len() == 0 {
        0
    } else {
        (match elems[0] {
            QueryElemV::NamedNode { name: n, .. } => if n == name {
                1nat
            } else {
                0nat
            },
            _ => 0nat,
        }) + spec_count_refs(elems.skip(1), name)
    }
}

/// The number of Error diagnostics reporting `name` as an unknown node
/// kind.
pub open spec fn spec_count_unknown(ds: Seq<DiagnosticV>, name: Seq<char>) -> nat
    decreases ds.len(),
{
    if ds.len() == 0 {
        0
    } else {
        (if ds[0].severity is Error && ds[0].message == (MessageV::UnknownNodeKind {
            name: name,
        }) {
            1nat
        } else {
            0nat
        }) + spec_count_unknown(ds.skip(1), name)
    }
}

proof fn lemma_count_unknown_concat(a: Seq<DiagnosticV>, b: Seq<DiagnosticV>, name: Seq<char>)
    ensures
        spec_count_unknown(a + b, name) == spec_count_unknown(a, name) + spec_count_unknown(
            b,
            name,
        ),
    decreases a.len(),
{
    if a.len() == 0 {
        assert(a + b =~= b);
    } else {
        assert((a + b)[0] == a[0]);
        assert((a + b).skip(1) =~= a.skip(1) + b);
        lemma_count_unknown_concat(a.skip(1), b, name);
    }
}

proof fn lemma_count_unknown_arg_diags(
    pname: Seq<char>,
    params: Seq<ParamSpecV>,
    args: Seq<PredArgV>,
    i: int,
    name: Seq<char>,
)
    ensures
        spec_count_unknown(spec_arg_diags(pname, params, args, i), name) == 0,
    decreases args.len() - i,
{
    if 0 <= i < args.len() {
        lemma_count_unknown_arg_diags(pname, params, args, i + 1, name);
        if !spec_type_matches(spec_expected_tag(params, i), args[i]) {
            let d = DiagnosticV {
                range: spec_arg_range(args[i]),
                severity: Severity::Warning,
                message: MessageV::TypeMismatch {
                    name: pname,
                    arg_index: i as usize,
                    expected: spec_expected_tag(params, i),
                },
            };
            lemma_count_unknown_concat(seq![d], spec_arg_diags(pname, params, args, i + 1), name);
            assert(seq![d].skip(1).len() == 0);
            assert(spec_count_unknown(seq![d].skip(1), name) == 0);
            assert(spec_count_unknown(seq![d], name) == 0);
        }
    }
}

proof fn lemma_count_unknown_elem(
    e: QueryElemV,
    gv: GrammarEntryV,
    r: ValidatorRegistryV,
    name: Seq<char>,
)
    ensures
        spec_count_unknown(spec_elem_diags(e, Some(gv), r), name) == (if !(name == "ERROR"@ || name
            == "MISSING"@ || gv.node_kinds.contains(name) || spec_is_supertype(gv, name)) {
            match e {
                QueryElemV::NamedNode { name: n, .. } => if n == name {
                    1nat
                } else {
                    0nat
                },
                _ => 0nat,
            }
        } else {
            0nat
        }),
{
    let ds = spec_elem_diags(e, Some(gv), r);
    if ds.len() == 1 {
        assert(ds.skip(1).len() == 0);
        assert(spec_count_unknown(ds.skip(1), name) == 0);
    }
    match e {
        QueryElemV::Predicate { name: pn, name_range, is_predicate, args, range } => {
            let defs = if is_predicate {
                r.predicates
            } else {
                r.directives
            };
            match spec_lookup_def(defs, pn) {
                None => {},
                Some(d) => {
                    if spec_arity_ok(d.parameters, args.len() as int) {
                        lemma_count_unknown_arg_diags(pn, d.parameters, args, 0, name);
                    }
                },
            }
        },
        _ => {},
    }
}

/// Node-kind references are flagged exactly once per occurrence, over a
/// whole document: when `name` is neither a builtin marker kind, a node
/// kind nor a supertype of the grammar entry, the diagnostics hold
/// exactly as many Errors naming `name` unknown as the elements hold
/// references to `name` — and none at all when `name` is known.
pub proof fn lemma_unknown_node_kind_count(
    elems: Seq<QueryElemV>,
    gv: GrammarEntryV,
    r: ValidatorRegistryV,
    name: Seq<char>,
)
    ensures
        spec_count_unknown(spec_validate(elems, Some(gv), r), name) == (if !(name == "ERROR"@
            || name == "MISSING"@ || gv.node_kinds.contains(name) || spec_is_supertype(gv, name)) {
            spec_count_refs(elems, name)
        } else {
            0nat
        }),
    decreases elems.len(),
{
    if elems.len() > 0 {
        lemma_count_unknown_concat(
            spec_elem_diags(elems[0], Some(gv), r),
            spec_validate(elems.skip(1), Some(gv), r),
            name,
        );
        lemma_count_unknown_elem(elems[0], gv, r, name);
        lemma_unknown_node_kind_count(elems.skip(1), gv, r, name);
    }
}

/// Capture tokens never produce diagnostics, whatever the grammar entry
/// and registry hold.
pub proof fn lemma_captures_never_flagged(
    name: Seq<char>,
    range: Range,
    g: Option<GrammarEntryV>,
    r: ValidatorRegistryV,
)
    ensures
        spec_elem_diags(QueryElemV::Capture { name, range }, g, r) == Seq::<DiagnosticV>::empty(),
{
}

} // verus!
