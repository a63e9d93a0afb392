//! The second proxy variant: every request goes to Harn's language server,
//! and a definition request that Harn answers with nothing is asked again of
//! rust-analyzer as a `workspace/symbol` query for the word under the cursor.
//!
//! The decisions live here as steps from the proxy's memory and one message
//! to the new memory and what to do next; the caller moves the messages and
//! reads the word under the cursor from the document on disk.
use vstd::prelude::*;
use vstd::hash_map::StringHashMap;
use crate::interceptor::{key_query, method_workspace_symbol, opt_rpc_view};
use crate::json::{Json, JsonModel};
use crate::rpc::{
    id_text, opt_string_view, result_is_empty, second_message, symbol_result, version, RpcMessage,
    RpcModel,
};
use crate::strings::to_owned_string;

verus! {

broadcast use vstd::string::group_string_axioms, vstd::hash_map::group_hash_map_axioms;

/// The proxy's memory.
pub struct FallbackProxy {
    /// Requests sent on to Harn: the text of the id to the parameters.
    pending_harn: StringHashMap<Json>,
    /// Definition requests asked again of rust-analyzer: the text of the id
    /// to the word it was asked for.
    pending_ra: StringHashMap<String>,
}

/// The model of the proxy's memory.
pub struct FallbackModel {
    pub pending_harn: Map<Seq<char>, JsonModel>,
    pub pending_ra: Map<Seq<char>, Seq<char>>,
}

impl View for FallbackProxy {
    type V = FallbackModel;

    closed spec fn view(&self) -> FallbackModel {
        FallbackModel {
            pending_harn: self.pending_harn@.map_values(|j: Json| j@),
            pending_ra: self.pending_ra@.map_values(|w: String| w@),
        }
    }
}

/// What to do with a message from one of the servers.
pub enum Delivery {
    /// Send this message to the editor.
    ToEditor(RpcMessage),
    /// Send this message to rust-analyzer.
    ToRustAnalyzer(RpcMessage),
    /// Harn found nothing: read the word under the cursor that these request
    /// parameters point at, and hand it to `on_harn_word` with the message.
    LookUpWord(Json),
    /// Nothing goes anywhere.
    Drop,
}

pub enum DeliveryModel {
    ToEditor(RpcModel),
    ToRustAnalyzer(RpcModel),
    LookUpWord(JsonModel),
    Drop,
}

impl View for Delivery {
    type V = DeliveryModel;

    open spec fn view(&self) -> DeliveryModel {
        match self {
            Delivery::ToEditor(m) => DeliveryModel::ToEditor(m@),
            Delivery::ToRustAnalyzer(m) => DeliveryModel::ToRustAnalyzer(m@),
            Delivery::LookUpWord(p) => DeliveryModel::LookUpWord(p@),
            Delivery::Drop => DeliveryModel::Drop,
        }
    }
}

/// The `workspace/symbol` request for `word`, under the id `id`.
pub open spec fn symbol_request(id: JsonModel, word: Seq<char>) -> RpcModel {
    RpcModel {
        jsonrpc: version(),
        id: Some(id),
        method: Some(method_workspace_symbol()),
        params: Some(JsonModel::Object(seq![(key_query(), JsonModel::Str(word))])),
        result: None,
        error: None,
    }
}

/// A message from the editor: it goes to Harn as it is; `initialize`,
/// `initialized` and `exit` also go to rust-analyzer (see `second_message`);
/// a request with parameters is remembered under its id.
pub open spec fn fallback_editor_step(s: FallbackModel, m: RpcModel, ext_path: Seq<char>) -> (
    FallbackModel,
    Option<RpcModel>,
) {
    let s2 = match (id_text(m.id), m.params) {
        (Some(id), Some(p)) => FallbackModel { pending_harn: s.pending_harn.insert(id, p), ..s },
        _ => s,
    };
    (s2, second_message(m, ext_path))
}

/// A message from Harn: an empty answer to a remembered request asks for the
/// word under that request's cursor; anything else goes to the editor, and
/// the request it answers is forgotten.
pub open spec fn fallback_harn_step(s: FallbackModel, m: RpcModel) -> (FallbackModel, DeliveryModel) {
    match id_text(m.id) {
        Some(id) => if result_is_empty(m.result) && s.pending_harn.contains_key(id) {
            (s, DeliveryModel::LookUpWord(s.pending_harn[id]))
        } else {
            (
                FallbackModel { pending_harn: s.pending_harn.remove(id), ..s },
                DeliveryModel::ToEditor(m),
            )
        },
        None => (s, DeliveryModel::ToEditor(m)),
    }
}

/// The word under the cursor for Harn's empty answer `m`, if one was found:
/// with a word, rust-analyzer is asked for it under the same id; without
/// one, the empty answer goes to the editor and the request is forgotten.
pub open spec fn fallback_word_step(s: FallbackModel, m: RpcModel, word: Option<Seq<char>>) -> (
    FallbackModel,
    DeliveryModel,
) {
    match id_text(m.id) {
        Some(id) => match word {
            Some(w) => (
                FallbackModel { pending_ra: s.pending_ra.insert(id, w), ..s },
                DeliveryModel::ToRustAnalyzer(symbol_request(m.id->0, w)),
            ),
            None => (
                FallbackModel { pending_harn: s.pending_harn.remove(id), ..s },
                DeliveryModel::ToEditor(m),
            ),
        },
        None => (s, DeliveryModel::ToEditor(m)),
    }
}

/// A message from rust-analyzer: the answer to a query that the proxy asked
/// goes to the editor as a ranked list of locations for the word; anything
/// else is dropped.
pub open spec fn fallback_ra_step(s: FallbackModel, m: RpcModel) -> (FallbackModel, DeliveryModel) {
    match id_text(m.id) {
        Some(id) => if s.pending_ra.contains_key(id) {
            (
                FallbackModel { pending_ra: s.pending_ra.remove(id), ..s },
                DeliveryModel::ToEditor(
                    RpcModel { result: Some(symbol_result(m.result, s.pending_ra[id])), ..m },
                ),
            )
        } else {
            (s, DeliveryModel::Drop)
        },
        None => (s, DeliveryModel::Drop),
    }
}

impl FallbackProxy {
    /// A proxy that remembers nothing.
    pub fn new() -> (r: Self)
        ensures
            r@.pending_harn == Map::<Seq<char>, JsonModel>::empty(),
            r@.pending_ra == Map::<Seq<char>, Seq<char>>::empty(),
    {
        let r = FallbackProxy { pending_harn: StringHashMap::new(), pending_ra: StringHashMap::new() };
        assert(r@.pending_harn =~= Map::<Seq<char>, JsonModel>::empty());
        assert(r@.pending_ra =~= Map::<Seq<char>, Seq<char>>::empty());
        r
    }

    /// Handles a message from the editor: returns the message for Harn (the
    /// one that came) and the one to mirror to rust-analyzer, if any, whose
    /// workspace is redirected under `ext_path`.
    pub fn on_editor_message(&mut self, msg: RpcMessage, ext_path: &str) -> (r: (
        RpcMessage,
        Option<RpcMessage>,
    ))
        ensures
            r.0@ == msg@,
            (final(self)@, opt_rpc_view(r.1)) == fallback_editor_step(old(self)@, msg@, ext_path@),
    {
        let second = msg.clone_second(ext_path);
        let ghost second_model = opt_rpc_view(second);
        assert(second_model == second_message(msg@, ext_path@));
        match (msg.id_str(), &msg.params) {
            (Some(id), Some(p)) => {
                let ghost key = id@;
                self.pending_harn.insert(id, p.copy());
                proof {
                    assert(self@.pending_harn =~= old(self)@.pending_harn.insert(key, p@));
                }
            },
            _ => {},
        }
        (msg, second)
    }

    /// Handles a message from Harn's server.
    pub fn on_harn_message(&mut self, msg: RpcMessage) -> (r: Delivery)
        ensures
            (final(self)@, r@) == fallback_harn_step(old(self)@, msg@),
    {
        let id = match msg.id_str() {
            Some(id) => id,
            None => {
                return Delivery::ToEditor(msg);
            },
        };
        if msg.is_empty_result() {
            match self.pending_harn.get(id.as_str()) {
                Some(p) => {
                    return Delivery::LookUpWord(p.copy());
                },
                None => {},
            }
        }
        self.pending_harn.remove(id.as_str());
        proof {
            assert(self@.pending_harn =~= old(self)@.pending_harn.remove(id@));
        }
        Delivery::ToEditor(msg)
    }

    /// Handles the word under the cursor for Harn's empty answer `msg`, as
    /// `LookUpWord` asked for it (`None` when none was found).
    pub fn on_harn_word(&mut self, msg: RpcMessage, word: Option<String>) -> (r: Delivery)
        ensures
            (final(self)@, r@) == fallback_word_step(old(self)@, msg@, opt_string_view(word)),
    {
        let key = match msg.id_str() {
            Some(k) => k,
            None => {
                return Delivery::ToEditor(msg);
            },
        };
        match word {
            Some(w) => {
                let id = match &msg.id {
                    Some(i) => i.copy(),
                    None => Json::Null,
                };
                let mut query: Vec<(String, Json)> = Vec::new();
                query.push((to_owned_string("query"), Json::Str(w.clone())));
                let params = Json::Object(query);
                proof {
                    reveal_strlit("query");
                    assert("query"@ =~= key_query());
                    crate::json::lemma_entry_views(query@);
                    assert(crate::json::entry_views(query@) =~= seq![(key_query(), JsonModel::Str(w@))]);
                }
                let request = RpcMessage::request(id, "workspace/symbol", Some(params));
                proof {
                    reveal_strlit("workspace/symbol");
                    assert("workspace/symbol"@ =~= method_workspace_symbol());
                }
                let ghost k = key@;
                let ghost wv = w@;
                self.pending_ra.insert(key, w);
                proof {
                    assert(self@.pending_ra =~= old(self)@.pending_ra.insert(k, wv));
                }
                Delivery::ToRustAnalyzer(request)
            },
            None => {
                self.pending_harn.remove(key.as_str());
                proof {
                    assert(self@.pending_harn =~= old(self)@.pending_harn.remove(key@));
                }
                Delivery::ToEditor(msg)
            },
        }
    }

    /// Handles a message from rust-analyzer.
    pub fn on_analyzer_message(&mut self, msg: RpcMessage) -> (r: Delivery)
        ensures
            (final(self)@, r@) == fallback_ra_step(old(self)@, msg@),
    {
        let key = match msg.id_str() {
            Some(k) => k,
            None => {
                return Delivery::Drop;
            },
        };
        let word = match self.pending_ra.get(key.as_str()) {
            Some(w) => w.clone(),
            None => {
                return Delivery::Drop;
            },
        };
        self.pending_ra.remove(key.as_str());
        proof {
            assert(self@.pending_ra =~= old(self)@.pending_ra.remove(key@));
        }
        Delivery::ToEditor(msg.into_symbol_response(word.as_str()))
    }
}

/// When Harn answers a remembered request with nothing and a word is found
/// under its cursor, rust-analyzer is asked for that word under the same id,
/// and its answer reaches the editor once, as the ranked locations for the
/// word.
pub proof fn law_empty_answer_falls_back(
    s: FallbackModel,
    answer: RpcModel,
    word: Seq<char>,
    reply: RpcModel,
)
    requires
        id_text(answer.id) is Some,
        s.pending_harn.contains_key(id_text(answer.id)->0),
        result_is_empty(answer.result),
        id_text(reply.id) == id_text(answer.id),
    ensures
        ({
            let (s1, d1) = fallback_harn_step(s, answer);
            let (s2, d2) = fallback_word_step(s1, answer, Some(word));
            let (s3, d3) = fallback_ra_step(s2, reply);
            &&& d1 == DeliveryModel::LookUpWord(s.pending_harn[id_text(answer.id)->0])
            &&& d2 == DeliveryModel::ToRustAnalyzer(symbol_request(answer.id->0, word))
            &&& d3 == DeliveryModel::ToEditor(
                RpcModel { result: Some(symbol_result(reply.result, word)), ..reply },
            )
            &&& !s3.pending_ra.contains_key(id_text(answer.id)->0)
            &&& fallback_ra_step(s3, reply) == (s3, DeliveryModel::Drop)
        }),
{
}

/// An answer from Harn that is not empty, or that answers no remembered
/// request, reaches the editor as it came.
pub proof fn law_harn_answer_passes(s: FallbackModel, answer: RpcModel)
    requires
        !result_is_empty(answer.result) || id_text(answer.id) is None || !s.pending_harn.contains_key(
            id_text(answer.id)->0,
        ),
    ensures
        fallback_harn_step(s, answer).1 == DeliveryModel::ToEditor(answer),
{
}

} // verus!
