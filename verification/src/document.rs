use vstd::prelude::*;

use ropey::Rope;

use crate::diag::Diagnostic;
use crate::engine::{diags_view, spec_opt_grammar, spec_validate, validate};
use crate::grammar::GrammarEntry;
use crate::parse::{parse_elements, spec_parse_elements};
use crate::query::{QueryElem, QueryElemV, elems_view, spec_elem_wf};
use crate::registry::ValidatorRegistry;
use crate::text::{rope_from_str, rope_insert, rope_len_chars, rope_remove, rope_text,
    rope_to_string};

verus! {

/// One open or linted query source: its identity, rope-backed text
/// buffer, parsed element sequence, optional target-language name, and
/// edit version. Tree, buffer and version are replaced together on each
/// edit, so a reader always sees one consistent snapshot.
pub struct Document {
    pub uri: String,
    pub buffer: Rope,
    pub elems: Vec<QueryElem>,
    pub language_name: Option<String>,
    pub version: u64,
}

pub struct DocumentV {
    pub uri: Seq<char>,
    pub text: Seq<char>,
    pub elems: Seq<QueryElemV>,
    pub language_name: Option<Seq<char>>,
    pub version: u64,
}

impl View for Document {
    type V = DocumentV;

    open spec fn view(&self) -> DocumentV {
        DocumentV {
            uri: self.uri@,
            text: rope_text(self.buffer),
            elems: elems_view(self.elems@),
            language_name: match self.language_name {
                Some(n) => Some(n@),
                None => None,
            },
            version: self.version,
        }
    }
}

impl Document {
    /// Every range in the parsed element sequence is well-formed.
    pub open spec fn wf(&self) -> bool {
        forall|i: int| 0 <= i < self@.elems.len() ==> spec_elem_wf(#[trigger] self@.elems[i])
    }

    /// Parse `source` into a fresh document at version zero. The parse
    /// always succeeds structurally: malformed regions surface as error
    /// and missing elements, never as a failure.
    pub fn open(uri: String, source: &str, language_name: Option<String>) -> (d: Document)
        ensures
            d.wf(),
            d@.uri == uri@,
            d@.text == source@,
            d@.elems == spec_parse_elements(source@),
            d@.language_name == (match language_name {
                Some(n) => Some(n@),
                None => None::<Seq<char>>,
            }),
            d@.version == 0,
    {
        let buffer = rope_from_str(source);
        let elems = parse_elements(source);
        Document { uri, buffer, elems, language_name, version: 0 }
    }

    /// The document's text length in characters.
    pub fn len_chars(&self) -> (n: usize)
        ensures
            n == self@.text.len(),
    {
        rope_len_chars(&self.buffer)
    }

    /// Replace the characters in `start..end` with `replacement`,
    /// re-parse, and bump the version: buffer, element sequence and
    /// version move together, atomically from a reader's point of view.
    pub fn edit(&mut self, start: usize, end: usize, replacement: &str)
        requires
            start <= end <= old(self)@.text.len(),
            old(self)@.version < u64::MAX,
        ensures
            final(self).wf(),
            final(self)@.uri == old(self)@.uri,
            final(self)@.elems == spec_parse_elements(final(self)@.text),
            final(self)@.language_name == old(self)@.language_name,
            final(self)@.text == old(self)@.text.take(start as int) + replacement@ + old(
                self,
            )@.text.skip(end as int),
            final(self)@.version == old(self)@.version + 1,
    {
        rope_remove(&mut self.buffer, start, end);
        rope_insert(&mut self.buffer, start, replacement);
        let text = rope_to_string(&self.buffer);
        self.elems = parse_elements(text.as_str());
        self.version = self.version + 1;
        proof {
            assert(rope_text(self.buffer) =~= old(self)@.text.take(start as int) + replacement@
                + old(self)@.text.skip(end as int));
        }
    }

    /// Whether a result computed against `version` is still current.
    /// Diagnostics computed against a superseded version are the
    /// caller's to discard; this is the check it makes.
    pub fn is_current(&self, version: u64) -> (r: bool)
        ensures
            r == (version == self@.version),
    {
        version == self.version
    }

    /// The full text of the document.
    pub fn text(&self) -> (s: String)
        ensures
            s@ == self@.text,
    {
        rope_to_string(&self.buffer)
    }

    /// Validate this document against an optional grammar entry and a
    /// validator registry snapshot: one synchronous traversal, emitting
    /// exactly the diagnostics `spec_validate` states, in document
    /// order.
    pub fn diagnostics(&self, grammar: Option<&GrammarEntry>, reg: &ValidatorRegistry) -> (out:
        Vec<Diagnostic>)
        ensures
            diags_view(out@) == spec_validate(self@.elems, spec_opt_grammar(grammar), reg@),
    {
        validate(&self.elems, grammar, reg)
    }
}

} // verus!
