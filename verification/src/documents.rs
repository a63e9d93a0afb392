//! The texts of the documents the editor has open, keyed by their URI.
use vstd::prelude::*;
use vstd::hash_map::StringHashMap;
use crate::json::{opt_array, opt_get, opt_str, Json, JsonModel};
use crate::strings::to_owned_string;

verus! {

broadcast use vstd::string::group_string_axioms, vstd::hash_map::group_hash_map_axioms,
    vstd::set::group_set_axioms;

/// Open documents: URI to full text.
pub struct DocumentStore {
    documents: StringHashMap<String>,
}

impl View for DocumentStore {
    type V = Map<Seq<char>, Seq<char>>;

    closed spec fn view(&self) -> Map<Seq<char>, Seq<char>> {
        self.documents@.map_values(|t: String| t@)
    }
}

impl DocumentStore {
    /// Only finitely many documents are ever open.
    #[verifier::type_invariant]
    closed spec fn finitely_many(self) -> bool {
        self.documents@.dom().finite()
    }

    /// An empty store.
    pub fn new() -> (r: Self)
        ensures
            r@ == Map::<Seq<char>, Seq<char>>::empty(),
    {
        let r = DocumentStore { documents: StringHashMap::new() };
        assert(r@ =~= Map::<Seq<char>, Seq<char>>::empty());
        r
    }

    /// Stores `text` as the text of `uri`, replacing any earlier text.
    pub fn insert(&mut self, uri: &str, text: &str)
        ensures
            final(self)@ == old(self)@.insert(uri@, text@),
    {
        proof {
            use_type_invariant(&*self);
        }
        let mut m = StringHashMap::new();
        std::mem::swap(&mut m, &mut self.documents);
        m.insert(to_owned_string(uri), to_owned_string(text));
        self.documents = m;
        assert(self@ =~= old(self)@.insert(uri@, text@));
    }

    /// The text of `uri`, if it is open.
    pub fn get(&self, uri: &str) -> (r: Option<&str>)
        ensures
            match r {
                Some(t) => self@.contains_key(uri@) && t@ == self@[uri@],
                None => !self@.contains_key(uri@),
            },
    {
        match self.documents.get(uri) {
            Some(t) => Some(t.as_str()),
            None => None,
        }
    }

    /// Closes `uri`, handing back its text if it was open.
    pub fn remove(&mut self, uri: &str) -> (r: Option<String>)
        ensures
            final(self)@ == old(self)@.remove(uri@),
            match r {
                Some(t) => old(self)@.contains_key(uri@) && t@ == old(self)@[uri@],
                None => !old(self)@.contains_key(uri@),
            },
    {
        proof {
            use_type_invariant(&*self);
        }
        let r = match self.documents.get(uri) {
            Some(t) => Some(t.clone()),
            None => None,
        };
        let mut m = StringHashMap::new();
        std::mem::swap(&mut m, &mut self.documents);
        m.remove(uri);
        self.documents = m;
        assert(self@ =~= old(self)@.remove(uri@));
        r
    }

    /// How many documents are open.
    pub fn len(&self) -> (r: usize)
        ensures
            r == self@.len(),
            self@.dom().finite(),
    {
        proof {
            use_type_invariant(self);
            assert(self@.dom() =~= self.documents@.dom());
        }
        self.documents.len()
    }

    /// Whether no document is open.
    pub fn is_empty(&self) -> (r: bool)
        ensures
            r == (self@.len() == 0),
    {
        proof {
            use_type_invariant(self);
            assert(self@.dom() =~= self.documents@.dom());
        }
        self.documents.len() == 0
    }

    /// Handles `textDocument/didOpen`: stores the text of
    /// `params.textDocument` under its URI.  Returns whether the parameters
    /// held both.
    pub fn handle_did_open(&mut self, params: Option<&Json>) -> (r: bool)
        ensures
            match opened_document(opt_model(params)) {
                Some((uri, text)) => r && final(self)@ == old(self)@.insert(uri, text),
                None => !r && final(self)@ == old(self)@,
            },
    {
        proof {
            reveal_strlit("textDocument");
            reveal_strlit("uri");
            reveal_strlit("text");
            assert("textDocument"@ =~= key_text_document());
            assert("uri"@ =~= key_uri());
            assert("text"@ =~= key_text());
        }
        let p = match params {
            Some(p) => p,
            None => {
                return false;
            },
        };
        let doc = match p.get("textDocument") {
            Some(d) => d,
            None => {
                return false;
            },
        };
        let uri = match doc.get("uri") {
            Some(u) => match u.as_str() {
                Some(s) => s,
                None => {
                    return false;
                },
            },
            None => {
                return false;
            },
        };
        let text = match doc.get("text") {
            Some(t) => match t.as_str() {
                Some(s) => s,
                None => {
                    return false;
                },
            },
            None => {
                return false;
            },
        };
        self.insert(uri.as_str(), text.as_str());
        true
    }

    /// Handles `textDocument/didChange` with full-text sync: stores the text
    /// of the first entry of `params.contentChanges` under
    /// `params.textDocument.uri`.  Returns whether the parameters held both.
    pub fn handle_did_change(&mut self, params: Option<&Json>) -> (r: bool)
        ensures
            match changed_document(opt_model(params)) {
                Some((uri, text)) => r && final(self)@ == old(self)@.insert(uri, text),
                None => !r && final(self)@ == old(self)@,
            },
    {
        broadcast use crate::json::group_json_views;

        proof {
            reveal_strlit("textDocument");
            reveal_strlit("uri");
            reveal_strlit("text");
            reveal_strlit("contentChanges");
            assert("textDocument"@ =~= key_text_document());
            assert("uri"@ =~= key_uri());
            assert("text"@ =~= key_text());
            assert("contentChanges"@ =~= key_content_changes());
        }
        let p = match params {
            Some(p) => p,
            None => {
                return false;
            },
        };
        let uri = match p.get("textDocument") {
            Some(d) => match d.get("uri") {
                Some(u) => match u.as_str() {
                    Some(s) => s,
                    None => {
                        return false;
                    },
                },
                None => {
                    return false;
                },
            },
            None => {
                return false;
            },
        };
        let changes = match p.get("contentChanges") {
            Some(c) => match c.as_array() {
                Some(xs) => xs,
                None => {
                    return false;
                },
            },
            None => {
                return false;
            },
        };
        if changes.len() == 0 {
            return false;
        }
        proof {
            crate::json::lemma_views(changes@);
        }
        let text = match changes[0].get("text") {
            Some(t) => match t.as_str() {
                Some(s) => s,
                None => {
                    return false;
                },
            },
            None => {
                return false;
            },
        };
        self.insert(uri.as_str(), text.as_str());
        true
    }
}

impl Default for DocumentStore {
    fn default() -> (r: Self)
        ensures
            r@ == Map::<Seq<char>, Seq<char>>::empty(),
    {
        DocumentStore::new()
    }
}

pub open spec fn opt_model(j: Option<&Json>) -> Option<JsonModel> {
    match j {
        Some(v) => Some(v@),
        None => None,
    }
}

pub open spec fn key_text_document() -> Seq<char> {
    seq!['t', 'e', 'x', 't', 'D', 'o', 'c', 'u', 'm', 'e', 'n', 't']
}

pub open spec fn key_uri() -> Seq<char> {
    seq!['u', 'r', 'i']
}

pub open spec fn key_text() -> Seq<char> {
    seq!['t', 'e', 'x', 't']
}

pub open spec fn key_content_changes() -> Seq<char> {
    seq!['c', 'o', 'n', 't', 'e', 'n', 't', 'C', 'h', 'a', 'n', 'g', 'e', 's']
}

/// `params.textDocument.uri` as a string.
pub open spec fn document_uri(params: Option<JsonModel>) -> Option<Seq<char>> {
    opt_str(opt_get(opt_get(params, key_text_document()), key_uri()))
}

/// The URI and text a `didOpen` notification carries, when it carries both.
pub open spec fn opened_document(params: Option<JsonModel>) -> Option<(Seq<char>, Seq<char>)> {
    match (
        document_uri(params),
        opt_str(opt_get(opt_get(params, key_text_document()), key_text())),
    ) {
        (Some(uri), Some(text)) => Some((uri, text)),
        _ => None,
    }
}

/// The URI and new full text a `didChange` notification carries, when it
/// carries both: the text is that of the first content change.
pub open spec fn changed_document(params: Option<JsonModel>) -> Option<(Seq<char>, Seq<char>)> {
    match (document_uri(params), opt_array(opt_get(params, key_content_changes()))) {
        (Some(uri), Some(changes)) => if changes.len() > 0 {
            match opt_str(opt_get(Some(changes[0]), key_text())) {
                Some(text) => Some((uri, text)),
                None => None,
            }
        } else {
            None
        },
        _ => None,
    }
}

/// A stored text reads back: after storing `text` under `uri`, the store
/// holds `text` under `uri`, and every other document keeps its text.
pub proof fn law_get_after_insert(
    docs: Map<Seq<char>, Seq<char>>,
    uri: Seq<char>,
    text: Seq<char>,
    other: Seq<char>,
)
    ensures
        docs.insert(uri, text).contains_key(uri),
        docs.insert(uri, text)[uri] == text,
        other != uri ==> (docs.insert(uri, text).contains_key(other) <==> docs.contains_key(other)),
        other != uri && docs.contains_key(other) ==> docs.insert(uri, text)[other] == docs[other],
{
}

/// Closing a document that was just stored hands back its text and leaves
/// the store as closing it before would have.
pub proof fn law_remove_after_insert(docs: Map<Seq<char>, Seq<char>>, uri: Seq<char>, text: Seq<char>)
    ensures
        docs.insert(uri, text).contains_key(uri) && docs.insert(uri, text)[uri] == text,
        docs.insert(uri, text).remove(uri) == docs.remove(uri),
        !docs.contains_key(uri) ==> docs.insert(uri, text).remove(uri) == docs,
{
    assert(docs.insert(uri, text).remove(uri) =~= docs.remove(uri));
    if !docs.contains_key(uri) {
        assert(docs.remove(uri) =~= docs);
    }
}

/// Storing a document that was not open adds one to the count; storing one
/// that was open does not change it.
pub proof fn law_len_after_insert(docs: Map<Seq<char>, Seq<char>>, uri: Seq<char>, text: Seq<char>)
    requires
        docs.dom().finite(),
    ensures
        docs.insert(uri, text).len() == docs.len() + (if docs.contains_key(uri) {
            0int
        } else {
            1int
        }),
{
    if docs.contains_key(uri) {
        assert(docs.insert(uri, text).dom() =~= docs.dom());
    }
}

} // verus!
