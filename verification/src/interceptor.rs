//! What the proxy changes in the traffic between the editor and the two
//! language servers behind it.
//!
//! Incoming text is parsed into `RpcMessage` values before it reaches these
//! functions; a message that did not parse is passed as `None`.
use vstd::prelude::*;
use vstd::string::StringSliceAdditionalSpecFns;
use vstd::utf8::encode_utf8;
use crate::documents::{document_uri, key_text_document, key_uri, DocumentStore};
use crate::json::{
    entries_get, entries_replace, json_text, object_replace, opt_get, opt_u64,
    opt_view, to_text, Json, JsonModel,
};
use crate::paths::{join_path, joined};
use crate::rpc::{
    file_scheme, harn_main, insert_workspace, key_id, key_jsonrpc, key_method, key_params,
    opt_string_view, rpc_text, version, with_workspace, RpcMessage, RpcModel,
};
use crate::strings::{push_str, str_equal, to_owned_string};
use crate::symbols::{answered_location, answered_symbol_location, chosen_location, find_symbol_location};
use crate::text::{get_word_at_position, position_supported, word_bytes_at};

verus! {

broadcast use vstd::string::group_string_axioms;

pub open spec fn opt_rpc_view(m: Option<RpcMessage>) -> Option<RpcModel> {
    match m {
        Some(x) => Some(x@),
        None => None,
    }
}

// ---------------------------------------------------------------------------
// The `initialize` answer
pub open spec fn key_capabilities() -> Seq<char> {
    seq!['c', 'a', 'p', 'a', 'b', 'i', 'l', 'i', 't', 'i', 'e', 's']
}

pub open spec fn key_text_document_sync() -> Seq<char> {
    seq![
        't', 'e', 'x', 't', 'D', 'o', 'c', 'u', 'm', 'e', 'n', 't', 'S', 'y', 'n', 'c',
    ]
}

/// A result whose `capabilities` object has a `textDocumentSync` member, with
/// that member set to 1 (full-text sync); `None` for any other result.
pub open spec fn full_sync_result(result: JsonModel) -> Option<JsonModel> {
    match result {
        JsonModel::Object(res) => match entries_get(res, key_capabilities()) {
            Some(JsonModel::Object(caps)) => if entries_get(caps, key_text_document_sync()) is Some {
                Some(
                    JsonModel::Object(
                        entries_replace(
                            res,
                            key_capabilities(),
                            JsonModel::Object(
                                entries_replace(caps, key_text_document_sync(), JsonModel::PosInt(1)),
                            ),
                        ),
                    ),
                )
            } else {
                None
            },
            _ => None,
        },
        _ => None,
    }
}

/// Asking for full-text sync twice is asking once: an answer that was
/// rewritten already is rewritten to itself.
pub proof fn law_full_sync_idempotent(result: JsonModel)
    requires
        full_sync_result(result) is Some,
    ensures
        full_sync_result(full_sync_result(result)->0) == full_sync_result(result),
{
    if let JsonModel::Object(res) = result {
        if let Some(JsonModel::Object(caps)) = entries_get(res, key_capabilities()) {
            let caps2 = entries_replace(caps, key_text_document_sync(), JsonModel::PosInt(1));
            crate::json::lemma_entries_replace_twice(caps, key_text_document_sync(), JsonModel::PosInt(1));
            crate::json::lemma_entries_replace_twice(res, key_capabilities(), JsonModel::Object(caps2));
        }
    }
}

/// The rewrite of the `initialize` answer is idempotent: when the text it
/// gives back is read again as `reparsed` (the message it encodes), the
/// second rewrite leaves that text as it is.
pub proof fn law_initialize_rewrite_idempotent(msg: Seq<char>, m: RpcModel, reparsed: RpcModel)
    requires
        m.result matches Some(res) && full_sync_result(res) is Some,
        reparsed == (RpcModel { result: Some(full_sync_result(m.result->0)->0), ..m }),
    ensures
        initialize_response_text(initialize_response_text(msg, Some(m)), Some(reparsed))
            == initialize_response_text(msg, Some(m)),
{
    law_full_sync_idempotent(m.result->0);
}

/// The `initialize` answer as the editor gets it: the server's answer
/// re-encoded with full-text sync when it announced some text sync, and the
/// text as it came otherwise (also when it did not parse).
pub open spec fn initialize_response_text(msg: Seq<char>, parsed: Option<RpcModel>) -> Seq<char> {
    match parsed {
        Some(m) => match m.result {
            Some(res) => match full_sync_result(res) {
                Some(res2) => rpc_text(RpcModel { result: Some(res2), ..m }),
                None => msg,
            },
            None => msg,
        },
        None => msg,
    }
}

fn with_full_sync(result: &Json) -> (r: Option<Json>)
    ensures
        opt_view(r) == full_sync_result(result@),
{
    proof {
        reveal_strlit("capabilities");
        reveal_strlit("textDocumentSync");
        assert("capabilities"@ =~= key_capabilities());
        assert("textDocumentSync"@ =~= key_text_document_sync());
    }
    if !matches!(result, Json::Object(_)) {
        return None;
    }
    let caps = match result.get("capabilities") {
        Some(c) => c,
        None => {
            return None;
        },
    };
    if !matches!(caps, Json::Object(_)) {
        return None;
    }
    if caps.get("textDocumentSync").is_none() {
        return None;
    }
    let new_caps = match caps.copy() {
        Json::Object(mut es) => {
            object_replace(&mut es, "textDocumentSync", Json::PosInt(1));
            Json::Object(es)
        },
        _ => {
            return None;
        },
    };
    match result.copy() {
        Json::Object(mut es) => {
            object_replace(&mut es, "capabilities", new_caps);
            Some(Json::Object(es))
        },
        _ => None,
    }
}

/// Rewrites the language server's answer to `initialize` so that it asks the
/// editor for full-text sync: `parsed` is `msg` parsed, if it parses.
pub fn rewrite_initialize_response(msg: &str, parsed: Option<RpcMessage>) -> (r: String)
    ensures
        r@ == initialize_response_text(msg@, opt_rpc_view(parsed)),
{
    let rpc = match parsed {
        Some(m) => m,
        None => {
            return to_owned_string(msg);
        },
    };
    let new_result = match &rpc.result {
        Some(res) => with_full_sync(res),
        None => None,
    };
    match new_result {
        Some(res2) => {
            let RpcMessage { jsonrpc, id, method, params, result, error } = rpc;
            let m2 = RpcMessage { jsonrpc, id, method, params, result: Some(res2), error };
            m2.to_json_string()
        },
        None => to_owned_string(msg),
    }
}

// ---------------------------------------------------------------------------
// rust-analyzer's `initialize`
/// `<extension_dir>/harn-main`, as `Path::join` makes it.
pub open spec fn harn_main_dir(extension_dir: Seq<char>) -> Seq<char> {
    joined(extension_dir, harn_main())
}

/// The `initialize` request for rust-analyzer: the editor's request with its
/// workspace pointed at the `harn-main` checkout; `None` when the request did
/// not parse or its parameters are not an object.
pub open spec fn ra_initialize_text(parsed: Option<RpcModel>, extension_dir: Seq<char>) -> Option<
    Seq<char>,
> {
    match parsed {
        Some(m) => match m.params {
            Some(JsonModel::Object(es)) => {
                let dir = harn_main_dir(extension_dir);
                Some(
                    rpc_text(
                        RpcModel {
                            params: Some(
                                JsonModel::Object(with_workspace(es, file_scheme() + dir, dir)),
                            ),
                            ..m
                        },
                    ),
                )
            },
            _ => None,
        },
        None => None,
    }
}

/// Builds rust-analyzer's `initialize` request from the editor's, whose
/// parsed form is `parsed`: `rootUri`, `rootPath` and `workspaceFolders`
/// point at `<extension_dir>/harn-main`.
pub fn build_ra_initialize_request(parsed: Option<RpcMessage>, extension_dir: &str) -> (r: Option<
    String,
>)
    ensures
        opt_string_view(r) == ra_initialize_text(opt_rpc_view(parsed), extension_dir@),
{
    let ra_init = match parsed {
        Some(m) => m,
        None => {
            return None;
        },
    };
    proof {
        reveal_strlit("harn-main");
        reveal_strlit("file://");
        assert("harn-main"@ =~= harn_main());
        assert("file://"@ =~= file_scheme());
    }
    let dir = join_path(extension_dir, "harn-main");
    let RpcMessage { jsonrpc, id, method, params, result, error } = ra_init;
    match params {
        Some(Json::Object(mut es)) => {
            let mut uri = to_owned_string("file://");
            push_str(&mut uri, dir.as_str());
            insert_workspace(&mut es, uri, dir);
            let m2 = RpcMessage {
                jsonrpc,
                id,
                method,
                params: Some(Json::Object(es)),
                result,
                error,
            };
            Some(m2.to_json_string())
        },
        _ => None,
    }
}

// ---------------------------------------------------------------------------
// Go-to-definition
/// What the proxy does with a request from the editor.
pub enum DefinitionIntercept {
    /// A definition request for a `Harness…` word: answered by asking
    /// rust-analyzer for the symbol.
    Intercepted { id: Json, word: String, ra_query_message: String },
    /// Anything else: passed on unchanged.
    Forward,
}

pub open spec fn method_definition() -> Seq<char> {
    seq![
        't', 'e', 'x', 't', 'D', 'o', 'c', 'u', 'm', 'e', 'n', 't', '/', 'd', 'e', 'f', 'i', 'n',
        'i', 't', 'i', 'o', 'n',
    ]
}

pub open spec fn method_workspace_symbol() -> Seq<char> {
    seq!['w', 'o', 'r', 'k', 's', 'p', 'a', 'c', 'e', '/', 's', 'y', 'm', 'b', 'o', 'l']
}

pub open spec fn key_position() -> Seq<char> {
    seq!['p', 'o', 's', 'i', 't', 'i', 'o', 'n']
}

pub open spec fn key_line() -> Seq<char> {
    seq!['l', 'i', 'n', 'e']
}

pub open spec fn key_character() -> Seq<char> {
    seq!['c', 'h', 'a', 'r', 'a', 'c', 't', 'e', 'r']
}

pub open spec fn key_query() -> Seq<char> {
    seq!['q', 'u', 'e', 'r', 'y']
}

/// `params.textDocument.uri`, `params.position.line` and
/// `params.position.character`, when all three are there.
pub open spec fn text_position_of(params: Option<JsonModel>) -> Option<(Seq<char>, u64, u64)> {
    let pos = opt_get(params, key_position());
    match (
        document_uri(params),
        opt_u64(opt_get(pos, key_line())),
        opt_u64(opt_get(pos, key_character())),
    ) {
        (Some(uri), Some(line), Some(col)) => Some((uri, line, col)),
        _ => None,
    }
}

/// The UTF-8 bytes of `Harness`.
pub open spec fn harness_bytes() -> Seq<u8> {
    seq![72u8, 97u8, 114u8, 110u8, 101u8, 115u8, 115u8]
}

pub open spec fn starts_with_harness(w: Seq<u8>) -> bool {
    w.len() >= 7 && w.subrange(0, 7) == harness_bytes()
}

/// The word (its UTF-8 bytes) of a definition request that the proxy answers
/// itself: the word under the cursor in an open document starts with
/// `Harness`.
pub open spec fn definition_word(m: RpcModel, docs: Map<Seq<char>, Seq<char>>) -> Option<Seq<u8>> {
    if m.method == Some(method_definition()) {
        match text_position_of(m.params) {
            Some((uri, line, col)) => if docs.contains_key(uri) {
                match word_bytes_at(encode_utf8(docs[uri]), (line as usize) as nat, (col as usize) as int) {
                    Some(w) => if starts_with_harness(w) {
                        Some(w)
                    } else {
                        None
                    },
                    None => None,
                }
            } else {
                None
            },
            None => None,
        }
    } else {
        None
    }
}

/// The id and the word of a definition request that the proxy answers
/// itself and that has an id.
pub open spec fn definition_target(m: RpcModel, docs: Map<Seq<char>, Seq<char>>) -> Option<
    (JsonModel, Seq<u8>),
> {
    match (definition_word(m, docs), m.id) {
        (Some(w), Some(id)) => Some((id, w)),
        _ => None,
    }
}

/// The inputs on which the lookup is defined: when the request points into an
/// open document, the column falls on a character boundary of its line.
pub open spec fn definition_supported(m: RpcModel, docs: Map<Seq<char>, Seq<char>>) -> bool {
    m.method == Some(method_definition()) ==> match text_position_of(m.params) {
        Some((uri, line, col)) => docs.contains_key(uri) ==> position_supported(
            encode_utf8(docs[uri]),
            (line as usize) as nat,
            (col as usize) as int,
        ),
        None => true,
    }
}

/// `{"id": id, "jsonrpc": "2.0", "method": "workspace/symbol",
/// "params": {"query": word}}`, its members in key order.
pub open spec fn symbol_query(id: JsonModel, word: Seq<char>) -> JsonModel {
    JsonModel::Object(
        seq![
            (key_id(), id),
            (key_jsonrpc(), JsonModel::Str(version())),
            (key_method(), JsonModel::Str(method_workspace_symbol())),
            (key_params(), JsonModel::Object(seq![(key_query(), JsonModel::Str(word))])),
        ],
    )
}

/// The document position a request's parameters point at.
pub fn text_position(params: &Json) -> (r: Option<(String, u64, u64)>)
    ensures
        match text_position_of(Some(params@)) {
            Some((uri, line, col)) => r matches Some((u, l, c)) && u@ == uri && l == line && c
                == col,
            None => r is None,
        },
{
    proof {
        reveal_strlit("textDocument");
        reveal_strlit("uri");
        reveal_strlit("position");
        reveal_strlit("line");
        reveal_strlit("character");
        assert("textDocument"@ =~= key_text_document());
        assert("uri"@ =~= key_uri());
        assert("position"@ =~= key_position());
        assert("line"@ =~= key_line());
        assert("character"@ =~= key_character());
    }
    let uri = match params.get("textDocument") {
        Some(d) => match d.get("uri") {
            Some(u) => match u.as_str() {
                Some(s) => s,
                None => {
                    return None;
                },
            },
            None => {
                return None;
            },
        },
        None => {
            return None;
        },
    };
    let pos = match params.get("position") {
        Some(p) => p,
        None => {
            return None;
        },
    };
    let line = match pos.get("line") {
        Some(l) => match l.as_u64() {
            Some(v) => v,
            None => {
                return None;
            },
        },
        None => {
            return None;
        },
    };
    let col = match pos.get("character") {
        Some(c) => match c.as_u64() {
            Some(v) => v,
            None => {
                return None;
            },
        },
        None => {
            return None;
        },
    };
    Some((uri.clone(), line, col))
}

/// A `file://` URI without its scheme; any other URI as it is.
pub open spec fn uri_file_path(uri: Seq<char>) -> Seq<char> {
    if uri.len() >= 7 && uri.subrange(0, 7) == file_scheme() {
        uri.subrange(7, uri.len() as int)
    } else {
        uri
    }
}

/// The file and position a request's parameters point at: the document URI
/// with `file://` removed, the line, and the column.
pub fn cursor_file_position(params: &Json) -> (r: Option<(String, u64, u64)>)
    ensures
        match text_position_of(Some(params@)) {
            Some((uri, line, col)) => r matches Some((p, l, c)) && p@ == uri_file_path(uri) && l
                == line && c == col,
            None => r is None,
        },
{
    let (uri, line, col) = match text_position(params) {
        Some(t) => t,
        None => {
            return None;
        },
    };
    proof {
        reveal_strlit("file://");
        assert("file://"@ =~= file_scheme());
    }
    if crate::strings::str_starts_with(uri.as_str(), "file://") {
        let cs = crate::strings::chars_of(uri.as_str());
        let mut path = String::new();
        let mut i: usize = 7;
        while i < cs.len()
            invariant
                cs@ == uri@,
                7 <= i <= cs@.len(),
                path@ == cs@.subrange(7, i as int),
            decreases cs@.len() - i,
        {
            crate::strings::push_char(&mut path, cs[i]);
            i = i + 1;
            assert(path@ =~= cs@.subrange(7, i as int));
        }
        Some((path, line, col))
    } else {
        Some((uri, line, col))
    }
}

/// Whether the UTF-8 bytes of `word` start with `Harness`.
fn word_starts_with_harness(word: &str) -> (r: bool)
    ensures
        r == starts_with_harness(word.spec_bytes()),
{
    let b = word.as_bytes();
    if b.len() < 7 {
        return false;
    }
    let r = b[0] == 72 && b[1] == 97 && b[2] == 114 && b[3] == 110 && b[4] == 101 && b[5] == 115
        && b[6] == 115;
    assert(r == (b@.subrange(0, 7) =~= harness_bytes()));
    r
}

/// The `workspace/symbol` request asking rust-analyzer for `word`.
fn symbol_query_json(id: &Json, word: &str) -> (r: Json)
    ensures
        r@ == symbol_query(id@, word@),
{
    broadcast use crate::json::group_json_views;

    proof {
        reveal_strlit("id");
        reveal_strlit("jsonrpc");
        reveal_strlit("2.0");
        reveal_strlit("method");
        reveal_strlit("workspace/symbol");
        reveal_strlit("params");
        reveal_strlit("query");
        assert("id"@ =~= key_id());
        assert("jsonrpc"@ =~= key_jsonrpc());
        assert("2.0"@ =~= version());
        assert("method"@ =~= key_method());
        assert("workspace/symbol"@ =~= method_workspace_symbol());
        assert("params"@ =~= key_params());
        assert("query"@ =~= key_query());
    }
    let mut inner: Vec<(String, Json)> = Vec::new();
    inner.push((to_owned_string("query"), Json::Str(to_owned_string(word))));
    let params = Json::Object(inner);
    assert(params@ =~= JsonModel::Object(seq![(key_query(), JsonModel::Str(word@))])) by {
        crate::json::lemma_entry_views(inner@);
        assert(crate::json::entry_views(inner@) =~= seq![(key_query(), JsonModel::Str(word@))]);
    }
    let mut es: Vec<(String, Json)> = Vec::new();
    es.push((to_owned_string("id"), id.copy()));
    es.push((to_owned_string("jsonrpc"), Json::Str(to_owned_string("2.0"))));
    es.push((to_owned_string("method"), Json::Str(to_owned_string("workspace/symbol"))));
    es.push((to_owned_string("params"), params));
    let r = Json::Object(es);
    proof {
        crate::json::lemma_entry_views(es@);
        assert(crate::json::entry_views(es@) =~= seq![
            (key_id(), id@),
            (key_jsonrpc(), JsonModel::Str(version())),
            (key_method(), JsonModel::Str(method_workspace_symbol())),
            (key_params(), JsonModel::Object(seq![(key_query(), JsonModel::Str(word@))])),
        ]);
    }
    r
}

/// The word under the cursor of a `textDocument/definition` request, when it
/// lies in an open document and starts with `Harness`.
pub fn definition_request_word(rpc: &RpcMessage, documents: &DocumentStore) -> (r: Option<String>)
    requires
        definition_supported(rpc@, documents@),
    ensures
        match definition_word(rpc@, documents@) {
            Some(w) => r matches Some(word) && encode_utf8(word@) == w,
            None => r is None,
        },
{
    proof {
        reveal_strlit("textDocument/definition");
        assert("textDocument/definition"@ =~= method_definition());
    }
    let is_definition = match &rpc.method {
        Some(m) => str_equal(m.as_str(), "textDocument/definition"),
        None => false,
    };
    if !is_definition {
        return None;
    }
    let params = match &rpc.params {
        Some(p) => p,
        None => {
            return None;
        },
    };
    let (uri, line, col) = match text_position(params) {
        Some(t) => t,
        None => {
            return None;
        },
    };
    let text = match documents.get(uri.as_str()) {
        Some(t) => t,
        None => {
            return None;
        },
    };
    let word = match get_word_at_position(text, line as usize, col as usize) {
        Some(w) => w,
        None => {
            return None;
        },
    };
    if !word_starts_with_harness(word.as_str()) {
        return None;
    }
    Some(word)
}

/// The `workspace/symbol` request text asking rust-analyzer for `word`, with
/// the request id `id`.
pub fn symbol_query_text(id: &Json, word: &str) -> (r: String)
    ensures
        r@ == json_text(symbol_query(id@, word@)),
{
    let query = symbol_query_json(id, word);
    to_text(&query)
}

/// Decides whether the proxy answers a request itself: a
/// `textDocument/definition` request with an id whose cursor, in an open
/// document, is on a word starting with `Harness` is turned into a
/// `workspace/symbol` query for rust-analyzer; everything else is forwarded.
pub fn check_definition_request(rpc: &RpcMessage, documents: &DocumentStore) -> (r:
    DefinitionIntercept)
    requires
        definition_supported(rpc@, documents@),
    ensures
        match definition_target(rpc@, documents@) {
            Some((id, w)) => r matches DefinitionIntercept::Intercepted {
                id: i,
                word,
                ra_query_message: q,
            } && i@ == id && encode_utf8(word@) == w && q@ == json_text(symbol_query(id, word@)),
            None => r is Forward,
        },
{
    let word = match definition_request_word(rpc, documents) {
        Some(w) => w,
        None => {
            return DefinitionIntercept::Forward;
        },
    };
    let id = match &rpc.id {
        Some(id) => id.copy(),
        None => {
            return DefinitionIntercept::Forward;
        },
    };
    let ra_query_message = symbol_query_text(&id, word.as_str());
    DefinitionIntercept::Intercepted { id, word, ra_query_message }
}

/// The answer to an intercepted definition request: rust-analyzer's
/// `workspace/symbol` answer with its result replaced by the chosen location,
/// or `null` when there is none.
pub open spec fn symbol_response_text(m: RpcModel, word: Seq<char>) -> Seq<char> {
    let loc = match m.result {
        Some(JsonModel::Array(xs)) => match chosen_location(xs, word) {
            Some(l) => l,
            None => JsonModel::Null,
        },
        _ => JsonModel::Null,
    };
    rpc_text(RpcModel { result: Some(loc), ..m })
}

/// The rewritten symbol answer is the same message with only its result
/// replaced: the chosen location, or `null` when the result is not an array
/// or no location is chosen (an empty array among them).
pub proof fn law_symbol_response_keeps_fields(m: RpcModel, word: Seq<char>)
    ensures
        exists|m2: RpcModel|
            symbol_response_text(m, word) == rpc_text(m2) && m2.jsonrpc == m.jsonrpc && m2.id == m.id
                && m2.method == m.method && m2.params == m.params && m2.error == m.error
                && m2.result == Some(
                match m.result {
                    Some(JsonModel::Array(xs)) => match chosen_location(xs, word) {
                        Some(l) => l,
                        None => JsonModel::Null,
                    },
                    _ => JsonModel::Null,
                },
            ),
        m.result matches Some(JsonModel::Array(xs)) && xs.len() == 0 ==> symbol_response_text(m, word)
            == rpc_text(RpcModel { result: Some(JsonModel::Null), ..m }),
{
    let loc = match m.result {
        Some(JsonModel::Array(xs)) => match chosen_location(xs, word) {
            Some(l) => l,
            None => JsonModel::Null,
        },
        _ => JsonModel::Null,
    };
    let m2 = RpcModel { result: Some(loc), ..m };
    assert(symbol_response_text(m, word) == rpc_text(m2));
}

/// Turns rust-analyzer's `workspace/symbol` answer into the answer to the
/// editor's definition request.
pub fn rewrite_symbol_response(rpc: &RpcMessage, word: &str) -> (r: String)
    ensures
        r@ == symbol_response_text(rpc@, word@),
{
    broadcast use crate::json::group_json_views;

    let found = match &rpc.result {
        Some(Json::Array(xs)) => find_symbol_location(xs.as_slice(), word),
        _ => None,
    };
    let loc = match found {
        Some(l) => l,
        None => Json::Null,
    };
    let mut rewritten = rpc.copy();
    rewritten.result = Some(loc);
    rewritten.to_json_string()
}

/// The proxy's answer to an intercepted definition request: rust-analyzer's
/// `workspace/symbol` answer with its result replaced by the answered
/// location (see `answered_location`), or `null` when there is none.
pub open spec fn answered_symbol_text(m: RpcModel, word: Seq<char>) -> Seq<char> {
    let loc = match m.result {
        Some(JsonModel::Array(xs)) => match answered_location(xs, word) {
            Some(l) => l,
            None => JsonModel::Null,
        },
        _ => JsonModel::Null,
    };
    rpc_text(RpcModel { result: Some(loc), ..m })
}

/// Turns rust-analyzer's `workspace/symbol` answer into the proxy's answer
/// to the editor's definition request.
pub fn answer_symbol_query(rpc: &RpcMessage, word: &str) -> (r: String)
    ensures
        r@ == answered_symbol_text(rpc@, word@),
{
    broadcast use crate::json::group_json_views;

    let found = match &rpc.result {
        Some(Json::Array(xs)) => answered_symbol_location(xs.as_slice(), word),
        _ => None,
    };
    let loc = match found {
        Some(l) => l,
        None => Json::Null,
    };
    let mut rewritten = rpc.copy();
    rewritten.result = Some(loc);
    rewritten.to_json_string()
}

// ---------------------------------------------------------------------------
// Server binaries
/// Where the extension keeps its `harn` binary.
pub open spec fn harn_lsp_path(extension_dir: Seq<char>) -> Seq<char> {
    joined(extension_dir, seq!['h', 'a', 'r', 'n', '-', 'b', 'i', 'n', '/', 'h', 'a', 'r', 'n'])
}

/// Where the extension keeps its `rust-analyzer` binary.
pub open spec fn rust_analyzer_path(extension_dir: Seq<char>) -> Seq<char> {
    joined(
        extension_dir,
        seq!['r', 'u', 's', 't', '-', 'a', 'n', 'a', 'l', 'y', 'z', 'e', 'r'],
    )
}

pub open spec fn harn_lsp_default() -> Seq<char> {
    seq!['h', 'a', 'r', 'n', '-', 'l', 's', 'p']
}

pub open spec fn rust_analyzer_default() -> Seq<char> {
    seq!['r', 'u', 's', 't', '-', 'a', 'n', 'a', 'l', 'y', 'z', 'e', 'r']
}

/// The path of the bundled `harn` binary under `extension_dir`.
pub fn harn_lsp_binary(extension_dir: &str) -> (r: String)
    ensures
        r@ == harn_lsp_path(extension_dir@),
{
    proof {
        reveal_strlit("harn-bin/harn");
        assert("harn-bin/harn"@ =~= seq!['h', 'a', 'r', 'n', '-', 'b', 'i', 'n', '/', 'h', 'a', 'r', 'n']);
    }
    join_path(extension_dir, "harn-bin/harn")
}

/// The path of the bundled `rust-analyzer` binary under `extension_dir`.
pub fn rust_analyzer_binary(extension_dir: &str) -> (r: String)
    ensures
        r@ == rust_analyzer_path(extension_dir@),
{
    proof {
        reveal_strlit("rust-analyzer");
        assert("rust-analyzer"@ =~= rust_analyzer_default());
    }
    join_path(extension_dir, "rust-analyzer")
}

/// The command that starts Harn's language server: the bundled binary when
/// it exists (`binary_exists` says whether `harn_lsp_binary(extension_dir)`
/// is there), `harn-lsp` from the search path otherwise.
pub fn resolve_harn_lsp_command(extension_dir: &str, binary_exists: bool) -> (r: String)
    ensures
        r@ == (if binary_exists {
            harn_lsp_path(extension_dir@)
        } else {
            harn_lsp_default()
        }),
{
    if binary_exists {
        harn_lsp_binary(extension_dir)
    } else {
        proof {
            reveal_strlit("harn-lsp");
            assert("harn-lsp"@ =~= harn_lsp_default());
        }
        to_owned_string("harn-lsp")
    }
}

/// The command that starts rust-analyzer: the bundled binary when it exists
/// (`binary_exists` says whether `rust_analyzer_binary(extension_dir)` is
/// there), `rust-analyzer` from the search path otherwise.
pub fn resolve_rust_analyzer_command(extension_dir: &str, binary_exists: bool) -> (r: String)
    ensures
        r@ == (if binary_exists {
            rust_analyzer_path(extension_dir@)
        } else {
            rust_analyzer_default()
        }),
{
    if binary_exists {
        rust_analyzer_binary(extension_dir)
    } else {
        proof {
            reveal_strlit("rust-analyzer");
            assert("rust-analyzer"@ =~= rust_analyzer_default());
        }
        to_owned_string("rust-analyzer")
    }
}

} // verus!
