//! JSON-RPC 2.0 messages as the language-server protocol exchanges them.
use vstd::prelude::*;
use crate::json::{
    copy_opt, json_text, object_insert, opt_view, sorted_insert, to_text, Json, JsonModel,
};
use crate::ranking::{rank_symbol_locations, ranked_locations};
use crate::strings::{push_char, push_str, str_equal, to_owned_string};

verus! {

broadcast use vstd::string::group_string_axioms;

/// A JSON-RPC message: a request, a response, a notification or an error.
pub struct RpcMessage {
    pub jsonrpc: String,
    pub id: Option<Json>,
    pub method: Option<String>,
    pub params: Option<Json>,
    pub result: Option<Json>,
    pub error: Option<Json>,
}

/// The mathematical model of a message.
pub struct RpcModel {
    pub jsonrpc: Seq<char>,
    pub id: Option<JsonModel>,
    pub method: Option<Seq<char>>,
    pub params: Option<JsonModel>,
    pub result: Option<JsonModel>,
    pub error: Option<JsonModel>,
}

pub open spec fn opt_string_view(s: Option<String>) -> Option<Seq<char>> {
    match s {
        Some(t) => Some(t@),
        None => None,
    }
}

impl View for RpcMessage {
    type V = RpcModel;

    open spec fn view(&self) -> RpcModel {
        RpcModel {
            jsonrpc: self.jsonrpc@,
            id: opt_view(self.id),
            method: opt_string_view(self.method),
            params: opt_view(self.params),
            result: opt_view(self.result),
            error: opt_view(self.error),
        }
    }
}

/// The protocol version every message carries.
pub open spec fn version() -> Seq<char> {
    seq!['2', '.', '0']
}

pub open spec fn key_code() -> Seq<char> {
    seq!['c', 'o', 'd', 'e']
}

pub open spec fn key_message() -> Seq<char> {
    seq!['m', 'e', 's', 's', 'a', 'g', 'e']
}

/// The JSON integer for an `i64`, as serde_json makes it.
pub open spec fn int_model(n: i64) -> JsonModel {
    if n < 0 {
        JsonModel::NegInt(n)
    } else {
        JsonModel::PosInt(n as u64)
    }
}

/// `{"code": code, "message": message}`.
pub open spec fn error_object(code: i64, message: Seq<char>) -> JsonModel {
    JsonModel::Object(seq![(key_code(), int_model(code)), (key_message(), JsonModel::Str(message))])
}

// ---------------------------------------------------------------------------
// Text
/// `,"name":` followed by the value, when there is one.
pub open spec fn field_text(name: Seq<char>, v: Option<JsonModel>) -> Seq<char> {
    match v {
        Some(x) => seq![','] + json_text(JsonModel::Str(name)) + seq![':'] + json_text(x),
        None => Seq::empty(),
    }
}

pub open spec fn key_jsonrpc() -> Seq<char> {
    seq!['j', 's', 'o', 'n', 'r', 'p', 'c']
}

pub open spec fn key_id() -> Seq<char> {
    seq!['i', 'd']
}

pub open spec fn key_method() -> Seq<char> {
    seq!['m', 'e', 't', 'h', 'o', 'd']
}

pub open spec fn key_params() -> Seq<char> {
    seq!['p', 'a', 'r', 'a', 'm', 's']
}

pub open spec fn key_result() -> Seq<char> {
    seq!['r', 'e', 's', 'u', 'l', 't']
}

pub open spec fn key_error() -> Seq<char> {
    seq!['e', 'r', 'r', 'o', 'r']
}

/// The method name as a JSON string, when there is one.
pub open spec fn method_json(m: Option<Seq<char>>) -> Option<JsonModel> {
    match m {
        Some(s) => Some(JsonModel::Str(s)),
        None => None,
    }
}

/// `{"jsonrpc":` and the version string.
pub open spec fn header_text(jsonrpc: Seq<char>) -> Seq<char> {
    seq!['{'] + json_text(JsonModel::Str(key_jsonrpc())) + seq![':'] + json_text(
        JsonModel::Str(jsonrpc),
    )
}

/// The compact JSON text of a message: its fields in declaration order,
/// absent ones left out, each name and value written by serde_json.
pub open spec fn rpc_text(m: RpcModel) -> Seq<char> {
    header_text(m.jsonrpc) + field_text(key_id(), m.id) + field_text(key_method(), method_json(m.method))
        + field_text(key_params(), m.params) + field_text(key_result(), m.result) + field_text(
        key_error(),
        m.error,
    ) + seq!['}']
}

fn write_header(out: &mut String, jsonrpc: &str)
    ensures
        final(out)@ == old(out)@ + header_text(jsonrpc@),
{
    let ghost start = out@;
    push_char(out, '{');
    push_str(out, to_text(&Json::Str(to_owned_string("jsonrpc"))).as_str());
    push_char(out, ':');
    push_str(out, to_text(&Json::Str(to_owned_string(jsonrpc))).as_str());
    proof {
        reveal_strlit("jsonrpc");
        assert("jsonrpc"@ =~= key_jsonrpc());
    }
    assert(out@ =~= start + header_text(jsonrpc@));
}

fn write_field(out: &mut String, name: &str, v: &Option<Json>)
    ensures
        final(out)@ == old(out)@ + field_text(name@, opt_view(*v)),
{
    match v {
        Some(x) => {
            let ghost start = out@;
            push_char(out, ',');
            push_str(out, to_text(&Json::Str(to_owned_string(name))).as_str());
            push_char(out, ':');
            push_str(out, to_text(x).as_str());
            assert(out@ =~= start + field_text(name@, opt_view(*v)));
        },
        None => {
            assert(out@ =~= out@ + field_text(name@, opt_view(*v)));
        },
    }
}

fn string_json(s: &Option<String>) -> (r: Option<Json>)
    ensures
        opt_view(r) == method_json(opt_string_view(*s)),
{
    match s {
        Some(t) => Some(Json::Str(t.clone())),
        None => None,
    }
}

/// `"2.0"` as a fresh string.
fn version_string() -> (r: String)
    ensures
        r@ == version(),
{
    let r = to_owned_string("2.0");
    proof {
        reveal_strlit("2.0");
    }
    r
}

impl RpcMessage {
    /// A message with the given id, method and parameters and no result or error.
    pub fn new(id: Option<Json>, method: Option<String>, params: Option<Json>) -> (r: Self)
        ensures
            r@ == (RpcModel {
                jsonrpc: version(),
                id: opt_view(id),
                method: opt_string_view(method),
                params: opt_view(params),
                result: None,
                error: None,
            }),
    {
        RpcMessage { jsonrpc: version_string(), id, method, params, result: None, error: None }
    }

    /// A request.
    pub fn request(id: Json, method: &str, params: Option<Json>) -> (r: Self)
        ensures
            r@ == (RpcModel {
                jsonrpc: version(),
                id: Some(id@),
                method: Some(method@),
                params: opt_view(params),
                result: None,
                error: None,
            }),
    {
        RpcMessage {
            jsonrpc: version_string(),
            id: Some(id),
            method: Some(to_owned_string(method)),
            params,
            result: None,
            error: None,
        }
    }

    /// A successful response.
    pub fn response(id: Json, result: Json) -> (r: Self)
        ensures
            r@ == (RpcModel {
                jsonrpc: version(),
                id: Some(id@),
                method: None,
                params: None,
                result: Some(result@),
                error: None,
            }),
    {
        RpcMessage {
            jsonrpc: version_string(),
            id: Some(id),
            method: None,
            params: None,
            result: Some(result),
            error: None,
        }
    }

    /// A notification: a method call without an id.
    pub fn notification(method: &str, params: Option<Json>) -> (r: Self)
        ensures
            r@ == (RpcModel {
                jsonrpc: version(),
                id: None,
                method: Some(method@),
                params: opt_view(params),
                result: None,
                error: None,
            }),
    {
        RpcMessage {
            jsonrpc: version_string(),
            id: None,
            method: Some(to_owned_string(method)),
            params,
            result: None,
            error: None,
        }
    }

    /// An error response carrying `{"code": code, "message": message}`.
    pub fn error(id: Option<Json>, code: i64, message: &str) -> (r: Self)
        ensures
            r@ == (RpcModel {
                jsonrpc: version(),
                id: opt_view(id),
                method: None,
                params: None,
                result: None,
                error: Some(error_object(code, message@)),
            }),
    {
        let code_value = if code < 0 {
            Json::NegInt(code)
        } else {
            Json::PosInt(code as u64)
        };
        let code_key = to_owned_string("code");
        let message_key = to_owned_string("message");
        proof {
            reveal_strlit("code");
            reveal_strlit("message");
            assert("code"@ =~= key_code());
            assert("message"@ =~= key_message());
        }
        let mut entries: Vec<(String, Json)> = Vec::new();
        entries.push((code_key, code_value));
        let ghost e1 = entries@;
        entries.push((message_key, Json::Str(to_owned_string(message))));
        let obj = Json::Object(entries);
        proof {
            assert(obj@ == error_object(code, message@)) by {
                assert(crate::json::entry_views(entries@) =~= seq![
                    (key_code(), int_model(code)),
                    (key_message(), JsonModel::Str(message@)),
                ]) by {
                    assert(entries@.drop_last() == e1);
                    assert(e1.drop_last() =~= Seq::<(String, Json)>::empty());
                    reveal_with_fuel(crate::json::entry_views, 3);
                }
            }
        }
        RpcMessage {
            jsonrpc: version_string(),
            id,
            method: None,
            params: None,
            result: None,
            error: Some(obj),
        }
    }

    /// A copy of this message.
    pub fn copy(&self) -> (r: Self)
        ensures
            r@ == self@,
    {
        RpcMessage {
            jsonrpc: self.jsonrpc.clone(),
            id: copy_opt(&self.id),
            method: match &self.method {
                Some(m) => Some(m.clone()),
                None => None,
            },
            params: copy_opt(&self.params),
            result: copy_opt(&self.result),
            error: copy_opt(&self.error),
        }
    }

    /// The compact JSON text of this message.
    pub fn to_json_string(&self) -> (r: String)
        ensures
            r@ == rpc_text(self@),
    {
        proof {
            reveal_strlit("id");
            reveal_strlit("method");
            reveal_strlit("params");
            reveal_strlit("result");
            reveal_strlit("error");
            assert("id"@ =~= key_id());
            assert("method"@ =~= key_method());
            assert("params"@ =~= key_params());
            assert("result"@ =~= key_result());
            assert("error"@ =~= key_error());
        }
        let mut out = String::new();
        write_header(&mut out, self.jsonrpc.as_str());
        assert(out@ =~= header_text(self@.jsonrpc));
        let ghost g0 = out@;
        write_field(&mut out, "id", &self.id);
        let ghost g1 = out@;
        assert(g1 == g0 + field_text(key_id(), self@.id));
        let method = string_json(&self.method);
        write_field(&mut out, "method", &method);
        let ghost g2 = out@;
        assert(g2 == g1 + field_text(key_method(), method_json(self@.method)));
        write_field(&mut out, "params", &self.params);
        let ghost g3 = out@;
        assert(g3 == g2 + field_text(key_params(), self@.params));
        write_field(&mut out, "result", &self.result);
        let ghost g4 = out@;
        assert(g4 == g3 + field_text(key_result(), self@.result));
        write_field(&mut out, "error", &self.error);
        let ghost g5 = out@;
        assert(g5 == g4 + field_text(key_error(), self@.error));
        push_char(&mut out, '}');
        assert(out@ =~= g5 + seq!['}']);
        out
    }

    /// The id as text: a string id as it is, any other id as its JSON text;
    /// `None` for a notification.
    pub fn id_str(&self) -> (r: Option<String>)
        ensures
            opt_string_view(r) == id_text(self@.id),
    {
        match &self.id {
            None => None,
            Some(Json::Str(s)) => Some(s.clone()),
            Some(other) => Some(to_text(other)),
        }
    }

    /// Same as `id_str`.
    pub fn idd(&self) -> (r: Option<String>)
        ensures
            opt_string_view(r) == id_text(self@.id),
    {
        self.id_str()
    }

    /// Whether the result is missing, `null` or an empty array.
    pub fn is_empty_result(&self) -> (r: bool)
        ensures
            r == result_is_empty(self@.result),
    {
        match &self.result {
            None => true,
            Some(Json::Null) => true,
            Some(Json::Array(arr)) => arr.len() == 0,
            Some(_) => false,
        }
    }

    /// Rewrites a `workspace/symbol` response into a definition response: the
    /// result becomes the ranked list of candidate locations for `word`, or
    /// `null` when there is none.
    pub fn into_symbol_response(self, word: &str) -> (r: Self)
        ensures
            r@ == (RpcModel { result: Some(symbol_result(self@.result, word@)), ..self@ }),
    {
        let locations: Vec<Json> = match &self.result {
            Some(Json::Array(arr)) => rank_symbol_locations(arr.as_slice(), word),
            _ => Vec::new(),
        };
        proof {
            crate::json::lemma_views(locations@);
        }
        let new_result = if locations.len() == 0 {
            Json::Null
        } else {
            Json::Array(locations)
        };
        RpcMessage { result: Some(new_result), ..self }
    }

    /// The message to mirror to the second server, if any: `initialize` with
    /// its workspace redirected to `<ext_path>/harn-main` (only when its
    /// parameters are an object), and `initialized` and `exit` unchanged.
    pub fn clone_second(&self, ext_path: &str) -> (r: Option<Self>)
        ensures
            match second_message(self@, ext_path@) {
                Some(m) => r matches Some(x) && x@ == m,
                None => r is None,
            },
    {
        proof {
            reveal_strlit("initialize");
            reveal_strlit("initialized");
            reveal_strlit("exit");
            assert("initialize"@ =~= method_initialize());
            assert("initialized"@ =~= method_initialized());
            assert("exit"@ =~= method_exit());
        }
        let method = match &self.method {
            Some(m) => m.as_str(),
            None => {
                return None;
            },
        };
        if str_equal(method, "initialize") {
            self.redirected_initialize(ext_path)
        } else if str_equal(method, "initialized") || str_equal(method, "exit") {
            Some(self.copy())
        } else {
            None
        }
    }

    /// An `initialize` request pointed at the workspace under `ext_path`, or
    /// `None` when its parameters are not an object.
    fn redirected_initialize(&self, ext_path: &str) -> (r: Option<Self>)
        ensures
            match self@.params {
                Some(JsonModel::Object(es)) => r matches Some(x) && x@ == (RpcModel {
                    params: Some(
                        JsonModel::Object(
                            with_workspace(es, workspace_uri(ext_path@), workspace_root(ext_path@)),
                        ),
                    ),
                    ..self@
                }),
                _ => r is None,
            },
    {
        let (uri, root_path) = workspace_paths(ext_path);
        let cloned = self.copy();
        let RpcMessage { jsonrpc, id, method, params, result, error } = cloned;
        match params {
            Some(Json::Object(mut es)) => {
                insert_workspace(&mut es, uri, root_path);
                Some(RpcMessage { jsonrpc, id, method, params: Some(Json::Object(es)), result, error })
            },
            _ => None,
        }
    }
}

/// `<ext_path>/harn-main`.
pub open spec fn workspace_root(ext_path: Seq<char>) -> Seq<char> {
    ext_path + seq!['/'] + harn_main()
}

/// `file://<ext_path>/harn-main`.
pub open spec fn workspace_uri(ext_path: Seq<char>) -> Seq<char> {
    file_scheme() + workspace_root(ext_path)
}

/// The workspace uri and root path under `ext_path`.
fn workspace_paths(ext_path: &str) -> (r: (String, String))
    ensures
        r.0@ == workspace_uri(ext_path@),
        r.1@ == workspace_root(ext_path@),
{
    let mut root_path = to_owned_string(ext_path);
    push_str(&mut root_path, "/harn-main");
    let mut uri = to_owned_string("file://");
    push_str(&mut uri, root_path.as_str());
    proof {
        reveal_strlit("/harn-main");
        reveal_strlit("file://");
        assert("/harn-main"@ =~= seq!['/'] + harn_main());
        assert("file://"@ =~= file_scheme());
        assert(root_path@ =~= workspace_root(ext_path@));
    }
    (uri, root_path)
}

pub open spec fn method_initialize() -> Seq<char> {
    seq!['i', 'n', 'i', 't', 'i', 'a', 'l', 'i', 'z', 'e']
}

pub open spec fn method_initialized() -> Seq<char> {
    seq!['i', 'n', 'i', 't', 'i', 'a', 'l', 'i', 'z', 'e', 'd']
}

pub open spec fn method_exit() -> Seq<char> {
    seq!['e', 'x', 'i', 't']
}

/// The text of an id: a string as it is, anything else as JSON text.
pub open spec fn id_text(id: Option<JsonModel>) -> Option<Seq<char>> {
    match id {
        None => None,
        Some(JsonModel::Str(s)) => Some(s),
        Some(other) => Some(json_text(other)),
    }
}

pub open spec fn result_is_empty(result: Option<JsonModel>) -> bool {
    match result {
        None => true,
        Some(JsonModel::Null) => true,
        Some(JsonModel::Array(xs)) => xs.len() == 0,
        Some(_) => false,
    }
}

/// The result of a rewritten symbol response.
pub open spec fn symbol_result(result: Option<JsonModel>, word: Seq<char>) -> JsonModel {
    let locations = match result {
        Some(JsonModel::Array(xs)) => ranked_locations(xs, word),
        _ => Seq::empty(),
    };
    if locations.len() == 0 {
        JsonModel::Null
    } else {
        JsonModel::Array(locations)
    }
}

pub open spec fn key_root_uri() -> Seq<char> {
    seq!['r', 'o', 'o', 't', 'U', 'r', 'i']
}

pub open spec fn key_root_path() -> Seq<char> {
    seq!['r', 'o', 'o', 't', 'P', 'a', 't', 'h']
}

pub open spec fn key_workspace_folders() -> Seq<char> {
    seq!['w', 'o', 'r', 'k', 's', 'p', 'a', 'c', 'e', 'F', 'o', 'l', 'd', 'e', 'r', 's']
}

pub open spec fn harn_main() -> Seq<char> {
    seq!['h', 'a', 'r', 'n', '-', 'm', 'a', 'i', 'n']
}

pub open spec fn file_scheme() -> Seq<char> {
    seq!['f', 'i', 'l', 'e', ':', '/', '/']
}

/// `[{"name": "harn-main", "uri": uri}]`.
pub open spec fn workspace_folders(uri: Seq<char>) -> JsonModel {
    JsonModel::Array(
        seq![
            JsonModel::Object(
                seq![
                    (seq!['n', 'a', 'm', 'e'], JsonModel::Str(harn_main())),
                    (seq!['u', 'r', 'i'], JsonModel::Str(uri)),
                ],
            ),
        ],
    )
}

/// Parameters pointed at the workspace `uri` / `root_path`: `rootUri`,
/// `rootPath` and `workspaceFolders` set in the object's entries.
pub open spec fn with_workspace(es: Seq<(Seq<char>, JsonModel)>, uri: Seq<char>, root_path: Seq<char>) -> Seq<
    (Seq<char>, JsonModel),
> {
    sorted_insert(
        sorted_insert(
            sorted_insert(es, key_root_uri(), JsonModel::Str(uri)),
            key_root_path(),
            JsonModel::Str(root_path),
        ),
        key_workspace_folders(),
        workspace_folders(uri),
    )
}

/// What `clone_second` sends to the second server.
pub open spec fn second_message(m: RpcModel, ext_path: Seq<char>) -> Option<RpcModel> {
    match m.method {
        Some(method) => if method == method_initialize() {
            match m.params {
                Some(JsonModel::Object(es)) => Some(
                    RpcModel {
                        params: Some(
                            JsonModel::Object(
                                with_workspace(es, workspace_uri(ext_path), workspace_root(ext_path)),
                            ),
                        ),
                        ..m
                    },
                ),
                _ => None,
            }
        } else if method == method_initialized() || method == method_exit() {
            Some(m)
        } else {
            None
        },
        None => None,
    }
}

/// Whether some candidate of a `workspace/symbol` result has a location and
/// a name that contains `word`.
pub open spec fn some_candidate_located(result: Option<JsonModel>, word: Seq<char>) -> bool {
    match result {
        Some(JsonModel::Array(xs)) => exists|k: int|
            0 <= k < xs.len() && (#[trigger] crate::ranking::location_of(xs[k])) is Some
                && crate::ranking::symbol_score(xs[k], word) > 0,
        _ => false,
    }
}

/// A rewritten symbol answer is `null` exactly when no candidate has both a
/// location and a name containing the word; otherwise it lists locations.
pub proof fn law_symbol_result_null(result: Option<JsonModel>, word: Seq<char>)
    ensures
        (symbol_result(result, word) == JsonModel::Null) <==> !some_candidate_located(result, word),
        symbol_result(result, word) is Null || symbol_result(result, word) is Array,
{
    match result {
        Some(JsonModel::Array(xs)) => {
            crate::ranking::law_ranked_locations_complete(xs, word);
            crate::ranking::law_ranked_locations_sound(xs, word);
            let r = ranked_locations(xs, word);
            if some_candidate_located(result, word) {
                let k = choose|k: int|
                    0 <= k < xs.len() && (#[trigger] crate::ranking::location_of(xs[k])) is Some
                        && crate::ranking::symbol_score(xs[k], word) > 0;
                assert(crate::ranking::has_equal(r, crate::ranking::location_of(xs[k])->0));
                assert(r.len() > 0);
            }
            if r.len() > 0 {
                let k = choose|k: int|
                    0 <= k < xs.len() && crate::ranking::symbol_score(xs[k], word) > 0
                        && crate::ranking::location_of(xs[k]) == Some(#[trigger] r[0]);
                assert(crate::ranking::location_of(xs[k]) is Some);
            }
        },
        _ => {},
    }
}

/// Sets `rootUri`, `rootPath` and `workspaceFolders` in parameter entries.
pub fn insert_workspace(es: &mut Vec<(String, Json)>, uri: String, root_path: String)
    ensures
        crate::json::entry_views(final(es)@) == with_workspace(
            crate::json::entry_views(old(es)@),
            uri@,
            root_path@,
        ),
{
    let k1 = to_owned_string("rootUri");
    let k2 = to_owned_string("rootPath");
    let k3 = to_owned_string("workspaceFolders");
    let kn = to_owned_string("name");
    let ku = to_owned_string("uri");
    let hm = to_owned_string("harn-main");
    proof {
        reveal_strlit("rootUri");
        reveal_strlit("rootPath");
        reveal_strlit("workspaceFolders");
        reveal_strlit("name");
        reveal_strlit("uri");
        reveal_strlit("harn-main");
        assert("rootUri"@ =~= key_root_uri());
        assert("rootPath"@ =~= key_root_path());
        assert("workspaceFolders"@ =~= key_workspace_folders());
        assert("name"@ =~= seq!['n', 'a', 'm', 'e']);
        assert("uri"@ =~= seq!['u', 'r', 'i']);
        assert("harn-main"@ =~= harn_main());
    }
    let uri2 = uri.clone();
    let mut folder_entries: Vec<(String, Json)> = Vec::new();
    folder_entries.push((kn, Json::Str(hm)));
    let ghost f1 = folder_entries@;
    folder_entries.push((ku, Json::Str(uri2)));
    let folder = Json::Object(folder_entries);
    let mut folders: Vec<Json> = Vec::new();
    folders.push(folder);
    let folders_json = Json::Array(folders);
    proof {
        assert(folder_entries@.drop_last() == f1);
        assert(f1.drop_last() =~= Seq::<(String, Json)>::empty());
        reveal_with_fuel(crate::json::entry_views, 3);
        assert(crate::json::entry_views(folder_entries@) =~= seq![
            (seq!['n', 'a', 'm', 'e'], JsonModel::Str(harn_main())),
            (seq!['u', 'r', 'i'], JsonModel::Str(uri@)),
        ]);
        assert(folders@.drop_last() =~= Seq::<Json>::empty());
        reveal_with_fuel(crate::json::views, 2);
        assert(crate::json::views(folders@) =~= seq![folder@]);
        assert(folders_json@ =~= workspace_folders(uri@));
    }
    object_insert(es, k1, Json::Str(uri));
    object_insert(es, k2, Json::Str(root_path));
    object_insert(es, k3, folders_json);
}

} // verus!
