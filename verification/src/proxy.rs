//! The routing decisions of the proxy that stands between the editor and the
//! two language servers (Harn's own and rust-analyzer).
//!
//! The proxy keeps the texts of the open documents and the definition
//! requests it has turned into `workspace/symbol` queries for rust-analyzer.
//! For each message from the editor it decides what goes to which server;
//! for each message from rust-analyzer, what goes back to the editor.
use vstd::prelude::*;
use vstd::hash_map::StringHashMap;
use vstd::utf8::{decode_utf8, encode_utf8, encode_utf8_decode_utf8};
use crate::documents::{changed_document, opened_document, DocumentStore};
use crate::interceptor::{
    answer_symbol_query, answered_symbol_text, build_ra_initialize_request, definition_request_word,
    definition_supported, definition_target, definition_word, opt_rpc_view, ra_initialize_text,
    symbol_query, symbol_query_text, text_position,
};
use crate::json::{json_text, model_get, opt_get, opt_str, to_text, Json, JsonModel};
use crate::rpc::{opt_string_view, rpc_text, RpcMessage, RpcModel};
use crate::strings::{str_equal, to_owned_string};
use crate::text::word_lookup_supported;

verus! {

broadcast use vstd::string::group_string_axioms, vstd::hash_map::group_hash_map_axioms;

/// The proxy's memory.
pub struct Proxy {
    documents: DocumentStore,
    /// Intercepted definition requests: the JSON text of the request id to
    /// the word that rust-analyzer was asked for.
    pending: StringHashMap<String>,
}

/// The model of the proxy's memory.
pub struct ProxyModel {
    pub documents: Map<Seq<char>, Seq<char>>,
    pub pending: Map<Seq<char>, Seq<char>>,
}

impl View for Proxy {
    type V = ProxyModel;

    closed spec fn view(&self) -> ProxyModel {
        ProxyModel {
            documents: self.documents@,
            pending: self.pending@.map_values(|w: String| w@),
        }
    }
}

/// Where the text of one message from the editor goes.
pub struct Routing {
    pub to_harn: Option<String>,
    pub to_rust_analyzer: Option<String>,
    /// The editor said `exit`: stop reading.
    pub stop: bool,
}

pub struct RoutingModel {
    pub to_harn: Option<Seq<char>>,
    pub to_rust_analyzer: Option<Seq<char>>,
    pub stop: bool,
}

impl View for Routing {
    type V = RoutingModel;

    open spec fn view(&self) -> RoutingModel {
        RoutingModel {
            to_harn: opt_string_view(self.to_harn),
            to_rust_analyzer: opt_string_view(self.to_rust_analyzer),
            stop: self.stop,
        }
    }
}

pub open spec fn method_of(m: RpcModel) -> Seq<char> {
    match m.method {
        Some(x) => x,
        None => Seq::empty(),
    }
}

/// What rust-analyzer gets for the editor's `initialize`: the request
/// pointed at the `harn-main` checkout, or as it came when its parameters are
/// not an object.
pub open spec fn analyzer_initialize(m: RpcModel, extension_dir: Seq<char>) -> Seq<char> {
    match ra_initialize_text(Some(m), extension_dir) {
        Some(t) => t,
        None => rpc_text(m),
    }
}

/// The open documents after a notification with method `method`.
pub open spec fn tracked_documents(
    docs: Map<Seq<char>, Seq<char>>,
    method: Seq<char>,
    params: Option<JsonModel>,
) -> Map<Seq<char>, Seq<char>> {
    let opened = if method == "textDocument/didOpen"@ {
        opened_document(params)
    } else if method == "textDocument/didChange"@ {
        changed_document(params)
    } else {
        None
    };
    match opened {
        Some((uri, text)) => docs.insert(uri, text),
        None => docs,
    }
}

/// The proxy's decision on the editor's message `msg` (parsed: `parsed`).
pub open spec fn editor_step(
    s: ProxyModel,
    msg: Seq<char>,
    parsed: Option<RpcModel>,
    extension_dir: Seq<char>,
) -> (ProxyModel, RoutingModel) {
    match parsed {
        None => (s, RoutingModel { to_harn: None, to_rust_analyzer: None, stop: false }),
        Some(m) => {
            let method = method_of(m);
            if method == "initialize"@ {
                (
                    s,
                    RoutingModel {
                        to_harn: Some(msg),
                        to_rust_analyzer: Some(analyzer_initialize(m, extension_dir)),
                        stop: false,
                    },
                )
            } else if definition_word(m, s.documents) is Some {
                let word = decode_utf8(definition_word(m, s.documents)->0);
                match m.id {
                    Some(id) => (
                        ProxyModel { pending: s.pending.insert(json_text(id), word), ..s },
                        RoutingModel {
                            to_harn: None,
                            to_rust_analyzer: Some(json_text(symbol_query(id, word))),
                            stop: false,
                        },
                    ),
                    // Without an id nothing can be matched to the answer; the
                    // query still goes out, with a `null` id.
                    None => (
                        s,
                        RoutingModel {
                            to_harn: None,
                            to_rust_analyzer: Some(json_text(symbol_query(JsonModel::Null, word))),
                            stop: false,
                        },
                    ),
                }
            } else {
                (
                    ProxyModel {
                        documents: tracked_documents(s.documents, method, m.params),
                        ..s
                    },
                    RoutingModel {
                        to_harn: Some(msg),
                        to_rust_analyzer: if method == "initialized"@ || method == "exit"@ {
                            Some(msg)
                        } else {
                            None
                        },
                        stop: method == "exit"@,
                    },
                )
            }
        },
    }
}

/// The proxy's decision on a message from rust-analyzer: the answer to an
/// intercepted definition request goes to the editor, rewritten; anything
/// else is dropped.
pub open spec fn analyzer_step(s: ProxyModel, parsed: Option<RpcModel>) -> (ProxyModel, Option<
    Seq<char>,
>) {
    match parsed {
        Some(m) => match m.id {
            Some(id) => {
                let key = json_text(id);
                if s.pending.contains_key(key) {
                    (
                        ProxyModel { pending: s.pending.remove(key), ..s },
                        Some(answered_symbol_text(m, s.pending[key])),
                    )
                } else {
                    (s, None)
                }
            },
            None => (s, None),
        },
        None => (s, None),
    }
}

/// The inputs on which the editor's message can be handled: a definition
/// request must point at a character boundary of an open document's line.
pub open spec fn editor_message_supported(s: ProxyModel, parsed: Option<RpcModel>) -> bool {
    match parsed {
        Some(m) => definition_supported(m, s.documents),
        None => true,
    }
}

impl Proxy {
    /// A proxy with no open documents and no pending queries.
    pub fn new() -> (r: Self)
        ensures
            r@.documents == Map::<Seq<char>, Seq<char>>::empty(),
            r@.pending == Map::<Seq<char>, Seq<char>>::empty(),
    {
        let r = Proxy { documents: DocumentStore::new(), pending: StringHashMap::new() };
        assert(r@.pending =~= Map::<Seq<char>, Seq<char>>::empty());
        r
    }

    /// Whether `on_editor_message` is defined on `parsed` (see
    /// `editor_message_supported`).
    pub fn supports(&self, parsed: &Option<RpcMessage>) -> (r: bool)
        ensures
            r == editor_message_supported(self@, opt_rpc_view(*parsed)),
    {
        let rpc = match parsed {
            Some(m) => m,
            None => {
                return true;
            },
        };
        let is_definition = match &rpc.method {
            Some(m) => str_equal(m.as_str(), "textDocument/definition"),
            None => false,
        };
        proof {
            reveal_strlit("textDocument/definition");
            assert("textDocument/definition"@ =~= crate::interceptor::method_definition());
        }
        if !is_definition {
            return true;
        }
        let params = match &rpc.params {
            Some(p) => p,
            None => {
                return true;
            },
        };
        let (uri, line, col) = match text_position(params) {
            Some(t) => t,
            None => {
                return true;
            },
        };
        match self.documents.get(uri.as_str()) {
            Some(text) => word_lookup_supported(text, line as usize, col as usize),
            None => true,
        }
    }

    /// Decides where the editor's message `msg` goes (`parsed` is `msg`
    /// parsed, if it parses), and keeps track of open documents and of
    /// intercepted definition requests.
    pub fn on_editor_message(
        &mut self,
        msg: &str,
        parsed: Option<RpcMessage>,
        extension_dir: &str,
    ) -> (r: Routing)
        requires
            editor_message_supported(old(self)@, opt_rpc_view(parsed)),
        ensures
            (final(self)@, r@) == editor_step(old(self)@, msg@, opt_rpc_view(parsed), extension_dir@),
    {
        let rpc = match parsed {
            Some(m) => m,
            None => {
                return Routing { to_harn: None, to_rust_analyzer: None, stop: false };
            },
        };
        let method: &str = match &rpc.method {
            Some(m) => m.as_str(),
            None => "",
        };
        proof {
            reveal_strlit("");
            assert(""@ =~= Seq::<char>::empty());
            reveal_strlit("textDocument/definition");
            assert("textDocument/definition"@ =~= crate::interceptor::method_definition());
        }
        assert(method@ == method_of(rpc@));
        if str_equal(method, "initialize") {
            let ra_text = match build_ra_initialize_request(Some(rpc.copy()), extension_dir) {
                Some(t) => t,
                None => rpc.to_json_string(),
            };
            return Routing {
                to_harn: Some(to_owned_string(msg)),
                to_rust_analyzer: Some(ra_text),
                stop: false,
            };
        }
        if str_equal(method, "textDocument/definition") {
            match definition_request_word(&rpc, &self.documents) {
                Some(word) => {
                    proof {
                        encode_utf8_decode_utf8(word@);
                    }
                    match &rpc.id {
                        Some(id) => {
                            let query = symbol_query_text(id, word.as_str());
                            let key = to_text(id);
                            self.pending.insert(key, word);
                            proof {
                                assert(self@.pending =~= old(self)@.pending.insert(
                                    json_text(id@),
                                    decode_utf8(encode_utf8(word@)),
                                ));
                            }
                            return Routing {
                                to_harn: None,
                                to_rust_analyzer: Some(query),
                                stop: false,
                            };
                        },
                        None => {
                            let query = symbol_query_text(&Json::Null, word.as_str());
                            return Routing {
                                to_harn: None,
                                to_rust_analyzer: Some(query),
                                stop: false,
                            };
                        },
                    }
                },
                None => {},
            }
        }
        assert(definition_word(rpc@, old(self)@.documents) is None);
        if str_equal(method, "textDocument/didOpen") {
            let params = match &rpc.params {
                Some(p) => Some(p),
                None => None,
            };
            self.documents.handle_did_open(params);
        } else if str_equal(method, "textDocument/didChange") {
            let params = match &rpc.params {
                Some(p) => Some(p),
                None => None,
            };
            self.documents.handle_did_change(params);
        }
        assert(self@.documents == tracked_documents(old(self)@.documents, method@, rpc@.params));
        let to_ra = if str_equal(method, "initialized") || str_equal(method, "exit") {
            Some(to_owned_string(msg))
        } else {
            None
        };
        Routing {
            to_harn: Some(to_owned_string(msg)),
            to_rust_analyzer: to_ra,
            stop: str_equal(method, "exit"),
        }
    }

    /// Decides what goes to the editor for a message from rust-analyzer
    /// (`parsed`, if it parsed): the rewritten answer to an intercepted
    /// definition request, whose record is then dropped; nothing otherwise.
    pub fn on_analyzer_message(&mut self, parsed: Option<RpcMessage>) -> (r: Option<String>)
        ensures
            (final(self)@, opt_string_view(r)) == analyzer_step(old(self)@, opt_rpc_view(parsed)),
    {
        let rpc = match parsed {
            Some(m) => m,
            None => {
                return None;
            },
        };
        let key = match &rpc.id {
            Some(id) => to_text(id),
            None => {
                return None;
            },
        };
        let word = match self.pending.get(key.as_str()) {
            Some(w) => w.clone(),
            None => {
                return None;
            },
        };
        self.pending.remove(key.as_str());
        proof {
            assert(self@.pending =~= old(self)@.pending.remove(key@));
        }
        Some(answer_symbol_query(&rpc, word.as_str()))
    }
}

/// An intercepted definition request is answered once: when rust-analyzer
/// answers with the same id, the editor gets that answer rewritten for the
/// word that was asked about, the record of the request is dropped, and the
/// open documents are untouched.
pub proof fn law_intercepted_reply(
    s: ProxyModel,
    msg: Seq<char>,
    request: RpcModel,
    extension_dir: Seq<char>,
    reply: RpcModel,
)
    requires
        definition_target(request, s.documents) is Some,
        reply.id is Some,
        json_text(reply.id->0) == json_text((definition_target(request, s.documents)->0).0),
    ensures
        ({
            let (id, w) = definition_target(request, s.documents)->0;
            let (s1, routed) = editor_step(s, msg, Some(request), extension_dir);
            let (s2, answer) = analyzer_step(s1, Some(reply));
            &&& routed.to_harn is None
            &&& routed.to_rust_analyzer == Some(json_text(symbol_query(id, decode_utf8(w))))
            &&& answer == Some(answered_symbol_text(reply, decode_utf8(w)))
            &&& !s2.pending.contains_key(json_text(id))
            &&& s2.documents == s.documents
        }),
{
    reveal_strlit("initialize");
    assert("initialize"@.len() == 10);
    assert(crate::interceptor::method_definition().len() == 23);
}

/// Every message from the editor that parses, other than a definition
/// request on a `Harness` word, reaches Harn's server exactly as it came.
pub proof fn law_forwarded_to_harn(
    s: ProxyModel,
    msg: Seq<char>,
    request: RpcModel,
    extension_dir: Seq<char>,
)
    requires
        definition_word(request, s.documents) is None,
    ensures
        editor_step(s, msg, Some(request), extension_dir).1.to_harn == Some(msg),
{
}

/// An answer from rust-analyzer that no intercepted request waits for goes
/// nowhere and changes nothing.
pub proof fn law_unrequested_reply_dropped(s: ProxyModel, reply: RpcModel)
    requires
        reply.id is None || !s.pending.contains_key(json_text(reply.id->0)),
    ensures
        analyzer_step(s, Some(reply)) == (s, None::<Seq<char>>),
{
}

/// The proxy keeps every open document's latest full text: after a
/// `didChange` that names a document and carries a first content change with
/// a text, that document reads as that text; the other documents, the
/// pending requests and what goes to Harn's server are as before.
pub proof fn law_did_change_stores_text(
    s: ProxyModel,
    msg: Seq<char>,
    m: RpcModel,
    extension_dir: Seq<char>,
    uri: Seq<char>,
    changes: Seq<JsonModel>,
    text: Seq<char>,
)
    requires
        m.method == Some("textDocument/didChange"@),
        opt_str(opt_get(opt_get(m.params, "textDocument"@), "uri"@)) == Some(uri),
        opt_get(m.params, "contentChanges"@) == Some(JsonModel::Array(changes)),
        changes.len() > 0,
        model_get(changes[0], "text"@) == Some(JsonModel::Str(text)),
    ensures
        editor_step(s, msg, Some(m), extension_dir).0.documents == s.documents.insert(uri, text),
        editor_step(s, msg, Some(m), extension_dir).0.pending == s.pending,
        editor_step(s, msg, Some(m), extension_dir).1.to_harn == Some(msg),
{
    reveal_strlit("textDocument/didChange");
    reveal_strlit("textDocument/didOpen");
    reveal_strlit("initialize");
    reveal_strlit("textDocument");
    reveal_strlit("uri");
    reveal_strlit("contentChanges");
    reveal_strlit("text");
    assert("textDocument"@ =~= crate::documents::key_text_document());
    assert("uri"@ =~= crate::documents::key_uri());
    assert("contentChanges"@ =~= crate::documents::key_content_changes());
    assert("text"@ =~= crate::documents::key_text());
    assert("textDocument/didChange"@ != "textDocument/didOpen"@) by {
        assert("textDocument/didChange"@.len() != "textDocument/didOpen"@.len());
    }
    assert("textDocument/didChange"@ != "initialize"@) by {
        assert("textDocument/didChange"@.len() != "initialize"@.len());
    }
    assert("textDocument/didChange"@ != crate::interceptor::method_definition()) by {
        assert("textDocument/didChange"@.len() != crate::interceptor::method_definition().len());
    }
    assert(changed_document(m.params) == Some((uri, text)));
}

/// After a `didOpen` that names a document and carries its text, that
/// document reads as that text; the pending requests and what goes to
/// Harn's server are as before.
pub proof fn law_did_open_stores_text(
    s: ProxyModel,
    msg: Seq<char>,
    m: RpcModel,
    extension_dir: Seq<char>,
    uri: Seq<char>,
    text: Seq<char>,
)
    requires
        m.method == Some("textDocument/didOpen"@),
        opt_str(opt_get(opt_get(m.params, "textDocument"@), "uri"@)) == Some(uri),
        opt_str(opt_get(opt_get(m.params, "textDocument"@), "text"@)) == Some(text),
    ensures
        editor_step(s, msg, Some(m), extension_dir).0.documents == s.documents.insert(uri, text),
        editor_step(s, msg, Some(m), extension_dir).0.pending == s.pending,
        editor_step(s, msg, Some(m), extension_dir).1.to_harn == Some(msg),
{
    reveal_strlit("textDocument/didOpen");
    reveal_strlit("initialize");
    reveal_strlit("textDocument");
    reveal_strlit("uri");
    reveal_strlit("text");
    assert("textDocument"@ =~= crate::documents::key_text_document());
    assert("uri"@ =~= crate::documents::key_uri());
    assert("text"@ =~= crate::documents::key_text());
    assert("textDocument/didOpen"@ != "initialize"@) by {
        assert("textDocument/didOpen"@.len() != "initialize"@.len());
    }
    assert("textDocument/didOpen"@ != crate::interceptor::method_definition()) by {
        assert("textDocument/didOpen"@.len() != crate::interceptor::method_definition().len());
    }
    assert(opened_document(m.params) == Some((uri, text)));
}

} // verus!
