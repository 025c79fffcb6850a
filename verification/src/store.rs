use vstd::prelude::*;

use crate::document::{Document, DocumentV};
use crate::grammar::{GrammarEntry, GrammarEntryV};
use crate::registry::{ValidatorRegistry, ValidatorRegistryV};

verus! {

/// One target language's grammar metadata under its name.
pub struct LanguageEntry {
    pub language: String,
    pub entry: GrammarEntry,
}

pub struct LanguageEntryV {
    pub language: Seq<char>,
    pub entry: GrammarEntryV,
}

impl View for LanguageEntry {
    type V = LanguageEntryV;

    open spec fn view(&self) -> LanguageEntryV {
        LanguageEntryV { language: self.language@, entry: self.entry@ }
    }
}

/// The shared state one server or linter run works against: documents by
/// identity, grammar entries by language name, and the single validator
/// registry. The store owns its contents; an embedding that shares it
/// across tasks guards the whole value with one reader-writer lock, so
/// every operation here is a whole-value transition and no reader can
/// observe a partial update.
pub struct Store {
    pub documents: Vec<Document>,
    pub grammars: Vec<LanguageEntry>,
    pub registry: ValidatorRegistry,
}

pub struct StoreV {
    pub documents: Seq<DocumentV>,
    pub grammars: Seq<LanguageEntryV>,
    pub registry: ValidatorRegistryV,
}

impl View for Store {
    type V = StoreV;

    open spec fn view(&self) -> StoreV {
        StoreV {
            documents: self.documents@.map_values(|d: Document| d@),
            grammars: self.grammars@.map_values(|g: LanguageEntry| g@),
            registry: self.registry@,
        }
    }
}

/// The document under `uri`: the first entry with that identity, if any.
pub open spec fn spec_lookup_doc(docs: Seq<DocumentV>, uri: Seq<char>) -> Option<DocumentV>
    decreases docs.len(),
{
    if docs.len() == 0 {
        None
    } else if docs[0].uri == uri {
        Some(docs[0])
    } else {
        spec_lookup_doc(docs.skip(1), uri)
    }
}

/// The grammar entry under `language`, if any.
pub open spec fn spec_lookup_language(
    grammars: Seq<LanguageEntryV>,
    language: Seq<char>,
) -> Option<GrammarEntryV>
    decreases grammars.len(),
{
    if grammars.len() == 0 {
        None
    } else if grammars[0].language == language {
        Some(grammars[0].entry)
    } else {
        spec_lookup_language(grammars.skip(1), language)
    }
}

pub proof fn lemma_lookup_doc_prefix(docs: Seq<DocumentV>, uri: Seq<char>, i: int)
    requires
        0 <= i <= docs.len(),
        forall|j: int| 0 <= j < i ==> #[trigger] docs[j].uri != uri,
    ensures
        spec_lookup_doc(docs, uri) == spec_lookup_doc(docs.skip(i), uri),
    decreases i,
{
    if i == 0 {
        assert(docs.skip(0) =~= docs);
    } else {
        assert forall|j: int| 0 <= j < i - 1 implies #[trigger] docs.skip(1)[j].uri != uri by {
            assert(docs.skip(1)[j] == docs[j + 1]);
        }
        lemma_lookup_doc_prefix(docs.skip(1), uri, i - 1);
        assert(docs.skip(1).skip(i - 1) =~= docs.skip(i));
    }
}

pub proof fn lemma_lookup_language_prefix(grammars: Seq<LanguageEntryV>, language: Seq<char>, i: int)
    requires
        0 <= i <= grammars.len(),
        forall|j: int| 0 <= j < i ==> #[trigger] grammars[j].language != language,
    ensures
        spec_lookup_language(grammars, language) == spec_lookup_language(
            grammars.skip(i),
            language,
        ),
    decreases i,
{
    if i == 0 {
        assert(grammars.skip(0) =~= grammars);
    } else {
        assert forall|j: int| 0 <= j < i - 1 implies #[trigger] grammars.skip(1)[j].language
            != language by {
            assert(grammars.skip(1)[j] == grammars[j + 1]);
        }
        lemma_lookup_language_prefix(grammars.skip(1), language, i - 1);
        assert(grammars.skip(1).skip(i - 1) =~= grammars.skip(i));
    }
}

/// Removing an entry that does not carry `uri` leaves the lookup of
/// `uri` unchanged.
pub proof fn lemma_lookup_doc_remove_other(docs: Seq<DocumentV>, k: int, uri: Seq<char>)
    requires
        0 <= k < docs.len(),
        docs[k].uri != uri,
    ensures
        spec_lookup_doc(docs.remove(k), uri) == spec_lookup_doc(docs, uri),
    decreases docs.len(),
{
    if k == 0 {
        assert(docs.remove(0) =~= docs.skip(1));
    } else {
        assert(docs.remove(k)[0] == docs[0]);
        assert(docs.remove(k).skip(1) =~= docs.skip(1).remove(k - 1));
        assert(docs.skip(1)[k - 1] == docs[k]);
        lemma_lookup_doc_remove_other(docs.skip(1), k - 1, uri);
    }
}

impl Store {
    /// An empty store with an empty registry.
    pub fn new() -> (s: Store)
        ensures
            s@.documents.len() == 0,
            s@.grammars.len() == 0,
            s@.registry.predicates.len() == 0,
            s@.registry.directives.len() == 0,
            s@.registry.captures.len() == 0,
    {
        Store {
            documents: Vec::new(),
            grammars: Vec::new(),
            registry: ValidatorRegistry::new(),
        }
    }

    /// The current registry snapshot.
    pub fn registry<'a>(&'a self) -> (r: &'a ValidatorRegistry)
        ensures
            r@ == self@.registry,
    {
        &self.registry
    }

    /// Replace the validator registry wholesale. The swap is a single
    /// whole-value assignment: afterwards lookups see exactly the new
    /// registry, and no document or grammar entry moves — there is no
    /// state in which old and new contents mix.
    pub fn install_registry(&mut self, registry: ValidatorRegistry)
        ensures
            final(self)@.registry == registry@,
            final(self)@.documents == old(self)@.documents,
            final(self)@.grammars == old(self)@.grammars,
    {
        self.registry = registry;
    }

    /// The document stored under `uri`, if any.
    pub fn get_document<'a>(&'a self, uri: &String) -> (r: Option<&'a Document>)
        ensures
            match r {
                Some(d) => spec_lookup_doc(self@.documents, uri@) == Some(d@),
                None => spec_lookup_doc(self@.documents, uri@) is None,
            },
    {
        let ghost dv = self@.documents;
        let mut i: usize = 0;
        while i < self.documents.len()
            invariant
                0 <= i <= self.documents.len(),
                dv == self.documents@.map_values(|d: Document| d@),
                forall|j: int| 0 <= j < i ==> #[trigger] dv[j].uri != uri@,
            decreases self.documents.len() - i,
        {
            if self.documents[i].uri == *uri {
                proof {
                    lemma_lookup_doc_prefix(dv, uri@, i as int);
                    assert(dv.skip(i as int)[0] == dv[i as int]);
                }
                return Some(&self.documents[i]);
            }
            assert(dv[i as int].uri != uri@);
            i = i + 1;
        }
        proof {
            lemma_lookup_doc_prefix(dv, uri@, dv.len() as int);
            assert(dv.skip(dv.len() as int).len() == 0);
        }
        None
    }

    /// Insert `doc` under its identity, replacing the document stored
    /// there if one was: afterwards that identity resolves to `doc`,
    /// every other identity resolves as before, and grammars and
    /// registry do not move. Only the slot of one document changes.
    pub fn open_document(&mut self, doc: Document)
        ensures
            spec_lookup_doc(final(self)@.documents, doc@.uri) == Some(doc@),
            forall|u: Seq<char>|
                u != doc@.uri ==> #[trigger] spec_lookup_doc(final(self)@.documents, u)
                    == spec_lookup_doc(old(self)@.documents, u),
            final(self)@.grammars == old(self)@.grammars,
            final(self)@.registry == old(self)@.registry,
    {
        let ghost dv = self@.documents;
        let ghost doctv = doc@;
        let mut idx: Option<usize> = None;
        let mut i: usize = 0;
        while i < self.documents.len()
            invariant
                0 <= i <= self.documents.len(),
                dv == self.documents@.map_values(|d: Document| d@),
                doctv == doc@,
                match idx {
                    None => forall|j: int| 0 <= j < i ==> #[trigger] dv[j].uri != doctv.uri,
                    Some(k) => 0 <= k < dv.len() && dv[k as int].uri == doctv.uri,
                },
            decreases self.documents.len() - i,
        {
            if self.documents[i].uri == doc.uri {
                proof {
                    assert(dv[i as int].uri == doctv.uri);
                }
                idx = Some(i);
                break;
            }
            assert(dv[i as int].uri != doctv.uri);
            i = i + 1;
        }
        if let Some(k) = idx {
            self.documents.remove(k);
            self.documents.insert(0, doc);
            proof {
                assert(self@.documents =~= seq![doctv] + dv.remove(k as int));
                assert(self@.documents[0] == doctv);
                assert(self@.documents.skip(1) =~= dv.remove(k as int));
                assert forall|u: Seq<char>| u != doctv.uri implies #[trigger] spec_lookup_doc(
                    self@.documents,
                    u,
                ) == spec_lookup_doc(dv, u) by {
                    lemma_lookup_doc_remove_other(dv, k as int, u);
                }
            }
        } else {
            self.documents.insert(0, doc);
            proof {
                assert(self@.documents =~= seq![doctv] + dv);
                assert(self@.documents[0] == doctv);
                assert(self@.documents.skip(1) =~= dv);
            }
        }
    }

    /// The grammar entry registered for `language`, if any.
    pub fn get_grammar<'a>(&'a self, language: &String) -> (r: Option<&'a GrammarEntry>)
        ensures
            match r {
                Some(g) => spec_lookup_language(self@.grammars, language@) == Some(g@),
                None => spec_lookup_language(self@.grammars, language@) is None,
            },
    {
        let ghost gv = self@.grammars;
        let mut i: usize = 0;
        while i < self.grammars.len()
            invariant
                0 <= i <= self.grammars.len(),
                gv == self.grammars@.map_values(|g: LanguageEntry| g@),
                forall|j: int| 0 <= j < i ==> #[trigger] gv[j].language != language@,
            decreases self.grammars.len() - i,
        {
            if self.grammars[i].language == *language {
                proof {
                    lemma_lookup_language_prefix(gv, language@, i as int);
                    assert(gv.skip(i as int)[0] == gv[i as int]);
                }
                return Some(&self.grammars[i].entry);
            }
            assert(gv[i as int].language != language@);
            i = i + 1;
        }
        proof {
            lemma_lookup_language_prefix(gv, language@, gv.len() as int);
            assert(gv.skip(gv.len() as int).len() == 0);
        }
        None
    }

    /// Register a grammar entry under its language name, shadowing any
    /// older entry: afterwards that language resolves to the new entry
    /// and every other language resolves as before. Entries are rebuilt
    /// wholesale, never patched.
    pub fn add_grammar(&mut self, entry: LanguageEntry)
        ensures
            spec_lookup_language(final(self)@.grammars, entry@.language) == Some(entry@.entry),
            forall|l: Seq<char>|
                l != entry@.language ==> #[trigger] spec_lookup_language(final(self)@.grammars, l)
                    == spec_lookup_language(old(self)@.grammars, l),
            final(self)@.documents == old(self)@.documents,
            final(self)@.registry == old(self)@.registry,
    {
        let ghost gv = self@.grammars;
        let ghost ev = entry@;
        self.grammars.insert(0, entry);
        proof {
            assert(self@.grammars =~= seq![ev] + gv);
            assert(self@.grammars[0] == ev);
            assert(self@.grammars.skip(1) =~= gv);
        }
    }
}

} // verus!
