use query_lint::diag::Position;
use query_lint::document::Document;
use query_lint::grammar::{GrammarEntry, Supertype};
use query_lint::hover::{HoverDoc, hover_at};
use query_lint::registry::{Arity, CaptureDesc, CaptureGroup, Definition, ParamSpec, TypeTag,
    ValidatorRegistry};
use query_lint::store::{LanguageEntry, Store};

fn s(x: &str) -> String {
    x.to_string()
}

fn pos(line: usize, character: usize) -> Position {
    Position { line, character }
}

fn test_grammar() -> GrammarEntry {
    GrammarEntry {
        node_kinds: vec![s("identifier"), s("function"), s("number"), s("boolean")],
        field_names: vec![s("name")],
        supertypes: vec![Supertype {
            name: s("supertype"),
            subtypes: vec![s("test"), s("test2")],
        }],
    }
}

fn test_registry() -> ValidatorRegistry {
    ValidatorRegistry {
        predicates: vec![Definition {
            name: s("eq"),
            description: s("Checks that a capture equals a string"),
            parameters: vec![
                ParamSpec { type_tag: TypeTag::Capture, arity: Arity::One, description: None },
                ParamSpec {
                    type_tag: TypeTag::Str,
                    arity: Arity::One,
                    description: Some(s("The text to compare against")),
                },
            ],
        }],
        directives: vec![],
        captures: vec![CaptureGroup {
            context: s("test"),
            captures: vec![CaptureDesc { name: s("error"), description: s("An error node") }],
        }],
    }
}

const SOURCE: &str = "(ERROR) @error (supertype) @node\n\n(supertype/test) @node\n\n(MISSING supertype) @node\n\n(_) @any\n_ @any";

#[test]
fn hover() {
    // the classification table, driven over one source as the editor
    // would drive it
    let doc = Document::open(s("file:///test.scm"), SOURCE, None);
    let g = test_grammar();
    let reg = test_registry();
    let ctx = s("test");

    // over `ERROR`
    let h = hover_at(&doc.elems, pos(0, 2), Some(&g), &reg, Some(&ctx)).unwrap();
    assert!(matches!(h.doc, HoverDoc::ErrorExplanation));
    assert_eq!(h.range.start, pos(0, 1));
    assert_eq!(h.range.end, pos(0, 6));

    // over the `MISSING` keyword
    let h = hover_at(&doc.elems, pos(4, 4), Some(&g), &reg, Some(&ctx)).unwrap();
    assert!(matches!(h.doc, HoverDoc::MissingExplanation));
    assert_eq!(h.range.start, pos(4, 1));
    assert_eq!(h.range.end, pos(4, 8));

    // over the wildcard forms
    let h = hover_at(&doc.elems, pos(6, 1), Some(&g), &reg, Some(&ctx)).unwrap();
    assert!(matches!(h.doc, HoverDoc::WildcardExplanation));
    assert_eq!(h.range.start, pos(6, 1));
    assert_eq!(h.range.end, pos(6, 2));
    let h = hover_at(&doc.elems, pos(7, 0), Some(&g), &reg, Some(&ctx)).unwrap();
    assert!(matches!(h.doc, HoverDoc::WildcardExplanation));

    // over a supertype node: the subtype listing
    let h = hover_at(&doc.elems, pos(0, 17), Some(&g), &reg, Some(&ctx)).unwrap();
    match &h.doc {
        HoverDoc::Subtypes { supertype, subtypes } => {
            assert_eq!(supertype, "supertype");
            assert_eq!(subtypes.len(), 2);
            assert_eq!(subtypes[0], "test");
            assert_eq!(subtypes[1], "test2");
        },
        _ => panic!("expected a subtype listing"),
    }

    // over the supertype part of `supertype/test`
    let h = hover_at(&doc.elems, pos(2, 4), Some(&g), &reg, Some(&ctx)).unwrap();
    assert!(matches!(&h.doc, HoverDoc::Subtypes { supertype, .. } if supertype == "supertype"));

    // over `@error`: the registered capture description
    let h = hover_at(&doc.elems, pos(0, 10), Some(&g), &reg, Some(&ctx)).unwrap();
    assert_eq!(h.range.start, pos(0, 8));
    assert_eq!(h.range.end, pos(0, 14));
    match &h.doc {
        HoverDoc::CaptureInfo { name, description } => {
            assert_eq!(name, "error");
            assert_eq!(description, "An error node");
        },
        _ => panic!("expected a capture description"),
    }
}

#[test]
fn hover_quantifier_anchor_alternation() {
    let src = "(function . (identifier)?)\n[ (number) ] @const";
    let doc = Document::open(s("file:///test.scm"), src, None);
    let g = test_grammar();
    let reg = test_registry();
    let h = hover_at(&doc.elems, pos(0, 10), Some(&g), &reg, None).unwrap();
    assert!(matches!(h.doc, HoverDoc::AnchorExplanation));
    let h = hover_at(&doc.elems, pos(0, 24), Some(&g), &reg, None).unwrap();
    assert!(matches!(h.doc, HoverDoc::QuantifierExplanation));
    let h = hover_at(&doc.elems, pos(1, 0), Some(&g), &reg, None).unwrap();
    assert!(matches!(h.doc, HoverDoc::AlternationExplanation));
}

#[test]
fn hover_predicate_signature() {
    let doc = Document::open(s("file:///test.scm"), "((identifier) @x (#eq? @x \"foo\"))", None);
    let g = test_grammar();
    let reg = test_registry();
    // over `#eq?`
    let h = hover_at(&doc.elems, pos(0, 18), Some(&g), &reg, None).unwrap();
    match &h.doc {
        HoverDoc::Signature { definition, is_predicate } => {
            assert!(*is_predicate);
            assert_eq!(definition.name, "eq");
            assert_eq!(definition.parameters.len(), 2);
            assert_eq!(definition.parameters[1].type_tag, TypeTag::Str);
            assert_eq!(
                definition.parameters[1].description.as_deref(),
                Some("The text to compare against")
            );
        },
        _ => panic!("expected a signature"),
    }
    // an unregistered name shows nothing
    let reg2 = ValidatorRegistry::new();
    assert!(hover_at(&doc.elems, pos(0, 18), Some(&g), &reg2, None).is_none());
}

#[test]
fn hover_nothing_in_whitespace() {
    let doc = Document::open(s("file:///test.scm"), "(identifier)    ", None);
    assert!(hover_at(&doc.elems, pos(0, 14), None, &ValidatorRegistry::new(), None).is_none());
}

#[test]
fn registry_lookups() {
    let reg = test_registry();
    assert!(reg.predicate(&s("eq")).is_some());
    assert!(reg.predicate(&s("nope")).is_none());
    assert!(reg.directive(&s("eq")).is_none());
    assert!(reg.captures_for(&s("test")).is_some());
    assert!(reg.captures_for(&s("other")).is_none());
    assert_eq!(reg.capture_description(&s("test"), &s("error")).unwrap(), "An error node");
    assert!(reg.capture_description(&s("test"), &s("warning")).is_none());
}

#[test]
fn grammar_lookups() {
    let g = test_grammar();
    assert!(g.has_node_kind(&s("identifier")));
    assert!(!g.has_node_kind(&s("foo")));
    assert!(g.has_field(&s("name")));
    assert!(!g.has_field(&s("wrong")));
    assert!(g.is_supertype(&s("supertype")));
    assert!(!g.is_supertype(&s("identifier")));
    let subs = g.subtypes_of(&s("supertype")).unwrap();
    assert_eq!(subs.len(), 2);
    assert!(g.subtypes_of(&s("identifier")).is_none());
}

#[test]
fn store_documents_and_grammars() {
    let mut store = Store::new();
    store.add_grammar(LanguageEntry { language: s("testlang"), entry: test_grammar() });
    assert!(store.get_grammar(&s("testlang")).is_some());
    assert!(store.get_grammar(&s("other")).is_none());

    let d1 = Document::open(s("file:///a.scm"), "(foo)", Some(s("testlang")));
    let d2 = Document::open(s("file:///b.scm"), "(identifier)", None);
    store.open_document(d1);
    store.open_document(d2);
    assert_eq!(store.get_document(&s("file:///a.scm")).unwrap().text(), "(foo)");
    assert_eq!(store.get_document(&s("file:///b.scm")).unwrap().text(), "(identifier)");
    assert!(store.get_document(&s("file:///c.scm")).is_none());

    // replacing a document under the same identity
    let d1b = Document::open(s("file:///a.scm"), "(bar)", Some(s("testlang")));
    store.open_document(d1b);
    assert_eq!(store.get_document(&s("file:///a.scm")).unwrap().text(), "(bar)");
    assert_eq!(store.get_document(&s("file:///b.scm")).unwrap().text(), "(identifier)");
}

#[test]
fn registry_install_is_whole_value() {
    // a validation that ran against the old snapshot and one that runs
    // against the new each see one complete registry, never a mix
    let mut store = Store::new();
    let doc = Document::open(s("file:///q.scm"), "((identifier) @x (#eq? @x \"foo\"))", None);
    store.open_document(doc);

    let before = store.get_document(&s("file:///q.scm")).unwrap().diagnostics(
        None,
        store.registry(),
    );
    assert_eq!(before.len(), 1);

    store.install_registry(test_registry());
    assert_eq!(store.registry().predicates.len(), 1);
    assert_eq!(store.registry().captures.len(), 1);
    // documents were not touched by the install
    let after = store.get_document(&s("file:///q.scm")).unwrap().diagnostics(
        None,
        store.registry(),
    );
    assert_eq!(after.len(), 0);
}

#[test]
fn hover_capture_inside_invocation() {
    // `@x` used as a predicate argument still resolves its description
    let doc = Document::open(s("file:///test.scm"), "((identifier) @error (#eq? @error \"e\"))", None);
    let g = test_grammar();
    let reg = test_registry();
    let ctx = s("test");
    // over the `@error` argument inside `(#eq? …)`
    let h = hover_at(&doc.elems, pos(0, 29), Some(&g), &reg, Some(&ctx)).unwrap();
    assert!(matches!(&h.doc,
        HoverDoc::CaptureInfo { name, description } if name == "error" && description == "An error node"));
    // over the string argument: nothing
    assert!(hover_at(&doc.elems, pos(0, 35), Some(&g), &reg, Some(&ctx)).is_none());
}
