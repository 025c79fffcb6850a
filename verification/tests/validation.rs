use query_lint::diag::{Message, Position, Range, Severity};
use query_lint::document::Document;
use query_lint::grammar::{GrammarEntry, Supertype};
use query_lint::lint::{lint_exit_code, severity_label};
use query_lint::registry::{Arity, CaptureDesc, CaptureGroup, Definition, ParamSpec, TypeTag,
    ValidatorRegistry};

fn s(x: &str) -> String {
    x.to_string()
}

fn pos(line: usize, character: usize) -> Position {
    Position { line, character }
}

fn range(l1: usize, c1: usize, l2: usize, c2: usize) -> Range {
    Range { start: pos(l1, c1), end: pos(l2, c2) }
}

fn test_grammar() -> GrammarEntry {
    GrammarEntry {
        node_kinds: vec![s("identifier"), s("function"), s("number"), s("boolean")],
        field_names: vec![s("name")],
        supertypes: vec![Supertype {
            name: s("supertype"),
            subtypes: vec![s("test"), s("test2")],
        }],
    }
}

fn eq_definition() -> Definition {
    Definition {
        name: s("eq"),
        description: s("Checks that a capture equals a string"),
        parameters: vec![
            ParamSpec { type_tag: TypeTag::Capture, arity: Arity::One, description: None },
            ParamSpec { type_tag: TypeTag::Str, arity: Arity::One, description: None },
        ],
    }
}

fn registry_with_eq() -> ValidatorRegistry {
    ValidatorRegistry {
        predicates: vec![eq_definition()],
        directives: vec![Definition {
            name: s("set"),
            description: s("Sets a property"),
            parameters: vec![ParamSpec {
                type_tag: TypeTag::Str,
                arity: Arity::ZeroOrMore,
                description: None,
            }],
        }],
        captures: vec![CaptureGroup {
            context: s("test"),
            captures: vec![CaptureDesc { name: s("error"), description: s("An error node") }],
        }],
    }
}

#[test]
fn unknown_node_kind_reported_once() {
    // end-to-end: `(foo)` against a grammar without `foo`
    let doc = Document::open(s("file:///q.scm"), "(foo)", None);
    let g = test_grammar();
    let reg = ValidatorRegistry::new();
    let diags = doc.diagnostics(Some(&g), &reg);
    assert_eq!(diags.len(), 1);
    assert_eq!(diags[0].severity, Severity::Error);
    assert_eq!(diags[0].range, range(0, 1, 0, 4));
    assert!(matches!(&diags[0].message, Message::UnknownNodeKind { name } if name == "foo"));
}

#[test]
fn known_node_kind_not_reported() {
    let doc = Document::open(s("file:///q.scm"), "(identifier)", None);
    let g = test_grammar();
    let reg = ValidatorRegistry::new();
    let diags = doc.diagnostics(Some(&g), &reg);
    assert_eq!(diags.len(), 0);
}

#[test]
fn supertype_name_is_valid_node_position() {
    let doc = Document::open(s("file:///q.scm"), "(supertype)", None);
    let diags = doc.diagnostics(Some(&test_grammar()), &ValidatorRegistry::new());
    assert_eq!(diags.len(), 0);
}

#[test]
fn missing_grammar_skips_node_checks() {
    // degraded mode: no grammar entry, no node-kind diagnostics
    let doc = Document::open(s("file:///q.scm"), "(foo)", None);
    let diags = doc.diagnostics(None, &ValidatorRegistry::new());
    assert_eq!(diags.len(), 0);
}

#[test]
fn valid_supertype_subtype_pair() {
    // end-to-end: `(supertype/test)` where `test` is a subtype
    let doc = Document::open(s("file:///q.scm"), "(supertype/test)", None);
    let diags = doc.diagnostics(Some(&test_grammar()), &ValidatorRegistry::new());
    assert_eq!(diags.len(), 0);
}

#[test]
fn invalid_subtype_reported() {
    let doc = Document::open(s("file:///q.scm"), "(supertype/nope)", None);
    let diags = doc.diagnostics(Some(&test_grammar()), &ValidatorRegistry::new());
    assert_eq!(diags.len(), 1);
    assert_eq!(diags[0].severity, Severity::Error);
    assert!(matches!(&diags[0].message,
        Message::InvalidSubtype { supertype, name } if supertype == "supertype" && name == "nope"));
}

#[test]
fn unknown_supertype_reported() {
    let doc = Document::open(s("file:///q.scm"), "(wrong/test)", None);
    let diags = doc.diagnostics(Some(&test_grammar()), &ValidatorRegistry::new());
    assert_eq!(diags.len(), 1);
    assert!(matches!(&diags[0].message, Message::UnknownSupertype { name } if name == "wrong"));
}

#[test]
fn predicate_matching_signature_clean() {
    // end-to-end: `((identifier) @x (#eq? @x "foo"))` with eq?: (capture, string)
    let doc = Document::open(s("file:///q.scm"), "((identifier) @x (#eq? @x \"foo\"))", None);
    let diags = doc.diagnostics(Some(&test_grammar()), &registry_with_eq());
    assert_eq!(diags.len(), 0);
}

#[test]
fn predicate_type_mismatch_warned() {
    // the second argument is a bare identifier, not a string or capture
    let doc = Document::open(s("file:///q.scm"), "((identifier) @x (#eq? @x foo))", None);
    let diags = doc.diagnostics(Some(&test_grammar()), &registry_with_eq());
    assert_eq!(diags.len(), 1);
    assert_eq!(diags[0].severity, Severity::Warning);
    assert!(matches!(&diags[0].message,
        Message::TypeMismatch { name, arg_index, expected: TypeTag::Str }
            if name == "eq" && *arg_index == 1));
}

#[test]
fn predicate_arity_mismatch_warned() {
    let doc = Document::open(s("file:///q.scm"), "((identifier) @x (#eq? @x))", None);
    let diags = doc.diagnostics(Some(&test_grammar()), &registry_with_eq());
    assert_eq!(diags.len(), 1);
    assert_eq!(diags[0].severity, Severity::Warning);
    assert!(matches!(&diags[0].message,
        Message::ArityMismatch { name, expected, variadic, actual }
            if name == "eq" && *expected == 2 && !*variadic && *actual == 1));
}

#[test]
fn unknown_predicate_warned_install_removes() {
    // one warning per unknown invocation; a registry that defines the
    // name with a fitting signature clears it without a re-parse
    let doc = Document::open(s("file:///q.scm"), "((identifier) @x (#eq? @x \"foo\"))", None);
    let empty = ValidatorRegistry::new();
    let diags = doc.diagnostics(Some(&test_grammar()), &empty);
    assert_eq!(diags.len(), 1);
    assert_eq!(diags[0].severity, Severity::Warning);
    assert!(matches!(&diags[0].message, Message::UnknownPredicate { name } if name == "eq"));
    // same document value, new registry
    let diags2 = doc.diagnostics(Some(&test_grammar()), &registry_with_eq());
    assert_eq!(diags2.len(), 0);
}

#[test]
fn unknown_directive_warned() {
    let doc = Document::open(s("file:///q.scm"), "((identifier) @x (#nope!))", None);
    let diags = doc.diagnostics(Some(&test_grammar()), &registry_with_eq());
    assert_eq!(diags.len(), 1);
    assert!(matches!(&diags[0].message, Message::UnknownDirective { name } if name == "nope"));
}

#[test]
fn variadic_directive_accepts_extra_args() {
    let doc = Document::open(s("file:///q.scm"), "((identifier) (#set! \"a\" \"b\" \"c\"))", None);
    let diags = doc.diagnostics(Some(&test_grammar()), &registry_with_eq());
    assert_eq!(diags.len(), 0);
}

#[test]
fn captures_never_flagged() {
    // whatever the registry holds, captures produce no diagnostics
    let doc = Document::open(s("file:///q.scm"), "(identifier) @x @unknown.cap", None);
    let diags = doc.diagnostics(Some(&test_grammar()), &ValidatorRegistry::new());
    assert_eq!(diags.len(), 0);
    let diags2 = doc.diagnostics(Some(&test_grammar()), &registry_with_eq());
    assert_eq!(diags2.len(), 0);
}

#[test]
fn parse_error_markers_become_errors() {
    // an unclosed paren leaves a zero-width missing marker at the end
    let doc = Document::open(s("file:///q.scm"), "(foo", None);
    let diags = doc.diagnostics(None, &ValidatorRegistry::new());
    assert_eq!(diags.len(), 1);
    assert_eq!(diags[0].severity, Severity::Error);
    assert!(matches!(&diags[0].message, Message::MissingToken));
    assert_eq!(diags[0].range, range(0, 4, 0, 4));
}

#[test]
fn stray_close_paren_is_syntax_error() {
    let doc = Document::open(s("file:///q.scm"), ") (identifier)", None);
    let diags = doc.diagnostics(Some(&test_grammar()), &ValidatorRegistry::new());
    assert_eq!(diags.len(), 1);
    assert_eq!(diags[0].severity, Severity::Error);
    assert!(matches!(&diags[0].message, Message::SyntaxError));
    assert_eq!(diags[0].range, range(0, 0, 0, 1));
}

#[test]
fn unknown_field_reported() {
    let doc = Document::open(s("file:///q.scm"), "(function wrong: (identifier))", None);
    let diags = doc.diagnostics(Some(&test_grammar()), &ValidatorRegistry::new());
    assert_eq!(diags.len(), 1);
    assert_eq!(diags[0].severity, Severity::Error);
    assert!(matches!(&diags[0].message, Message::UnknownField { name } if name == "wrong"));
}

#[test]
fn known_field_clean() {
    let doc = Document::open(s("file:///q.scm"), "(function name: (identifier))", None);
    let diags = doc.diagnostics(Some(&test_grammar()), &ValidatorRegistry::new());
    assert_eq!(diags.len(), 0);
}

#[test]
fn diagnostics_in_document_order() {
    let doc = Document::open(s("file:///q.scm"), "(foo)\n(bar)", None);
    let diags = doc.diagnostics(Some(&test_grammar()), &ValidatorRegistry::new());
    assert_eq!(diags.len(), 2);
    assert_eq!(diags[0].range.start.line, 0);
    assert_eq!(diags[1].range.start.line, 1);
}

#[test]
fn edit_replaces_text_and_bumps_version() {
    let mut doc = Document::open(s("file:///q.scm"), "(foo)", None);
    assert_eq!(doc.text(), "(foo)");
    assert_eq!(doc.len_chars(), 5);
    // replace `foo` (chars 1..4) with `identifier`
    doc.edit(1, 4, "identifier");
    assert_eq!(doc.text(), "(identifier)");
    let diags = doc.diagnostics(Some(&test_grammar()), &ValidatorRegistry::new());
    assert_eq!(diags.len(), 0);
}

#[test]
fn wildcard_anchor_quantifier_alternation_clean() {
    let src = "(function . (identifier)?)\n(_) @any\n_ @any\n[ (number) (boolean) ] @const";
    let doc = Document::open(s("file:///q.scm"), src, None);
    let diags = doc.diagnostics(Some(&test_grammar()), &registry_with_eq());
    assert_eq!(diags.len(), 0);
}

#[test]
fn missing_keyword_pattern_checks_its_argument() {
    let doc = Document::open(s("file:///q.scm"), "(MISSING supertype) @node", None);
    let diags = doc.diagnostics(Some(&test_grammar()), &ValidatorRegistry::new());
    assert_eq!(diags.len(), 0);
    let doc2 = Document::open(s("file:///q.scm"), "(MISSING nothere)", None);
    let diags2 = doc2.diagnostics(Some(&test_grammar()), &ValidatorRegistry::new());
    assert_eq!(diags2.len(), 1);
}

#[test]
fn error_builtin_kind_clean() {
    let doc = Document::open(s("file:///q.scm"), "(ERROR) @error", None);
    let diags = doc.diagnostics(Some(&test_grammar()), &ValidatorRegistry::new());
    assert_eq!(diags.len(), 0);
}

#[test]
fn severity_labels() {
    assert_eq!(severity_label(Severity::Error), "Error");
    assert_eq!(severity_label(Severity::Warning), "Warning");
    assert_eq!(severity_label(Severity::Information), "Info");
    assert_eq!(severity_label(Severity::Hint), "Hint");
}

#[test]
fn exit_codes() {
    assert_eq!(lint_exit_code(false, false), 0);
    assert_eq!(lint_exit_code(true, false), 1);
    assert_eq!(lint_exit_code(false, true), 1);
    assert_eq!(lint_exit_code(true, true), 1);
}

#[test]
fn empty_source_is_clean() {
    let doc = Document::open(s("file:///q.scm"), "", None);
    assert_eq!(doc.len_chars(), 0);
    let diags = doc.diagnostics(Some(&test_grammar()), &ValidatorRegistry::new());
    assert_eq!(diags.len(), 0);
}

#[test]
fn comments_are_ignored() {
    let doc = Document::open(s("file:///q.scm"), "; a comment (with) [brackets]\n(identifier)", None);
    let diags = doc.diagnostics(Some(&test_grammar()), &ValidatorRegistry::new());
    assert_eq!(diags.len(), 0);
}

#[test]
fn edit_appends_at_end() {
    let mut doc = Document::open(s("file:///q.scm"), "(identifier)", None);
    let end = doc.len_chars();
    doc.edit(end, end, " @x");
    assert_eq!(doc.text(), "(identifier) @x");
    let diags = doc.diagnostics(Some(&test_grammar()), &ValidatorRegistry::new());
    assert_eq!(diags.len(), 0);
}

#[test]
fn unterminated_string_is_syntax_error() {
    let doc = Document::open(s("file:///q.scm"), "(\"oops", None);
    let diags = doc.diagnostics(Some(&test_grammar()), &ValidatorRegistry::new());
    // the bad literal and the unclosed paren are both reported
    assert_eq!(diags.len(), 2);
    assert!(matches!(&diags[0].message, Message::SyntaxError));
    assert!(matches!(&diags[1].message, Message::MissingToken));
}

#[test]
fn anonymous_node_is_clean() {
    let doc = Document::open(s("file:///q.scm"), "(function \"+\" (identifier))", None);
    let diags = doc.diagnostics(Some(&test_grammar()), &ValidatorRegistry::new());
    assert_eq!(diags.len(), 0);
}

#[test]
fn stale_results_detected_by_version() {
    let mut doc = Document::open(s("file:///q.scm"), "(foo)", None);
    let computed_at = doc.version;
    assert!(doc.is_current(computed_at));
    doc.edit(1, 4, "bar");
    // a result computed against the old version must be discarded
    assert!(!doc.is_current(computed_at));
    assert!(doc.is_current(doc.version));
}

#[test]
fn invocation_diagnostics_precede_argument_errors() {
    // the invocation's own warning sits at the name, before the error
    // at the malformed argument: document order by start position
    let doc = Document::open(s("file:///q.scm"), "((identifier) @x (#eq? @x $))", None);
    let diags = doc.diagnostics(Some(&test_grammar()), &registry_with_eq());
    assert_eq!(diags.len(), 2);
    assert!(matches!(&diags[0].message,
        Message::ArityMismatch { name, expected, actual, .. }
            if name == "eq" && *expected == 2 && *actual == 1));
    assert!(matches!(&diags[1].message, Message::SyntaxError));
    assert!(diags[0].range.start.character < diags[1].range.start.character);
}
