use serde_json::{Number, Value};
use zed_harnlang::documents::DocumentStore;
use zed_harnlang::interceptor::{
    build_ra_initialize_request, check_definition_request, cursor_file_position,
    resolve_harn_lsp_command, resolve_rust_analyzer_command, rewrite_initialize_response,
    answer_symbol_query, definition_request_word, rewrite_symbol_response, symbol_query_text,
    DefinitionIntercept,
};
use zed_harnlang::fallback::{Delivery, FallbackProxy};
use zed_harnlang::json::Json;
use zed_harnlang::proxy::Proxy;
use zed_harnlang::ranking::rank_symbol_locations;
use zed_harnlang::rpc::RpcMessage;
use zed_harnlang::symbols::{answered_symbol_location, find_symbol_location};
use zed_harnlang::text::get_word_at_position;
use zed_harnlang::transport::{format_message, frame_message, header_step, HeaderStep};

// ---------------------------------------------------------------------------
// Conversions between serde_json values and the library's values, as a
// parsed message would carry them.

fn to_json(v: &Value) -> Json {
    match v {
        Value::Null => Json::Null,
        Value::Bool(b) => Json::Bool(*b),
        Value::Number(n) => {
            if let Some(u) = n.as_u64() {
                Json::PosInt(u)
            } else if let Some(i) = n.as_i64() {
                Json::NegInt(i)
            } else {
                Json::Float(n.to_string())
            }
        }
        Value::String(s) => Json::Str(s.clone()),
        Value::Array(xs) => Json::Array(xs.iter().map(to_json).collect()),
        Value::Object(m) => Json::Object(m.iter().map(|(k, v)| (k.clone(), to_json(v))).collect()),
    }
}

fn to_value(j: &Json) -> Value {
    match j {
        Json::Null => Value::Null,
        Json::Bool(b) => Value::Bool(*b),
        Json::PosInt(n) => Value::Number(Number::from(*n)),
        Json::NegInt(n) => Value::Number(Number::from(*n)),
        Json::Float(t) => Value::Number(Number::from_f64(t.parse::<f64>().unwrap()).unwrap()),
        Json::Str(s) => Value::String(s.clone()),
        Json::Array(xs) => Value::Array(xs.iter().map(to_value).collect()),
        Json::Object(es) => {
            Value::Object(es.iter().map(|(k, v)| (k.clone(), to_value(v))).collect())
        }
    }
}

fn opt_value(j: &Option<Json>) -> Option<Value> {
    j.as_ref().map(to_value)
}

/// Parses a message the way a derived `Deserialize` with optional fields does.
fn parse_rpc(s: &str) -> Option<RpcMessage> {
    let v: Value = serde_json::from_str(s).ok()?;
    let obj = v.as_object()?;
    let jsonrpc = obj.get("jsonrpc")?.as_str()?.to_string();
    let field = |k: &str| obj.get(k).filter(|x| !x.is_null()).map(to_json);
    let method = match obj.get("method") {
        None | Some(Value::Null) => None,
        Some(Value::String(m)) => Some(m.clone()),
        Some(_) => return None,
    };
    Some(RpcMessage {
        jsonrpc,
        id: field("id"),
        method,
        params: field("params"),
        result: field("result"),
        error: field("error"),
    })
}

fn rpc_value(m: &RpcMessage) -> Value {
    let mut obj = serde_json::Map::new();
    obj.insert("jsonrpc".to_string(), Value::String(m.jsonrpc.clone()));
    if let Some(v) = &m.id {
        obj.insert("id".to_string(), to_value(v));
    }
    if let Some(v) = &m.method {
        obj.insert("method".to_string(), Value::String(v.clone()));
    }
    if let Some(v) = &m.params {
        obj.insert("params".to_string(), to_value(v));
    }
    if let Some(v) = &m.result {
        obj.insert("result".to_string(), to_value(v));
    }
    if let Some(v) = &m.error {
        obj.insert("error".to_string(), to_value(v));
    }
    Value::Object(obj)
}

/// A value written as JSON text.
fn v(text: &str) -> Value {
    serde_json::from_str(text).unwrap()
}

fn j(v: Value) -> Json {
    to_json(&v)
}

fn js(vs: Vec<Value>) -> Vec<Json> {
    vs.iter().map(to_json).collect()
}

// ---------------------------------------------------------------------------
// JSON text

#[test]
fn json_text_matches_serde_json() {
    let samples = vec![
        v(r#"null"#),
        v(r#"true"#),
        v(r#"false"#),
        v(r#"0"#),
        v(r#"42"#),
        v(r#"-7"#),
        v(r#"18446744073709551615"#),
        v(r#"-9223372036854775808"#),
        v(r#"1.5"#),
        v(r#"-0.0"#),
        v(r#"1e300"#),
        v(r#"0.1"#),
        v(r#""plain""#),
        v(r#""quote \" backslash \\ slash / tab \t newline \n cr \r""#),
        v(r#""control \u0001 \u001f \u007f bell \u0008 form \u000c""#),
        v(r#""unicode привет 😀""#),
        v(r#"[]"#),
        v(r#"{}"#),
        v(r#"[1, [2, [3, {"a": []}]], "x"]"#),
        v(r#"{"b": 1, "a": {"z": null, "y": [true, false]}, "Ä": "é", "A": 0}"#),
    ];
    for v in samples {
        let text = RpcMessage::response(Json::PosInt(1), to_json(&v)).to_json_string();
        let expected =
            format!("{{\"jsonrpc\":\"2.0\",\"id\":1,\"result\":{}}}", serde_json::to_string(&v).unwrap());
        assert_eq!(text, expected, "value {v:?}");
    }
}

#[test]
fn rpc_text_matches_serde_json() {
    let msg = RpcMessage::request(
        j(v(r#""req-1""#)),
        "textDocument/hover",
        Some(j(v(r#"{"position": {"line": 3, "character": 9}, "textDocument": {"uri": "file:///a"}}"#))),
    );
    let reparsed: Value = serde_json::from_str(&msg.to_json_string()).unwrap();
    assert_eq!(reparsed, rpc_value(&msg));
    assert_eq!(
        msg.to_json_string(),
        "{\"jsonrpc\":\"2.0\",\"id\":\"req-1\",\"method\":\"textDocument/hover\",\"params\":{\"position\":{\"character\":9,\"line\":3},\"textDocument\":{\"uri\":\"file:///a\"}}}"
    );
}

// ---------------------------------------------------------------------------
// Messages

#[test]
fn rpc_test_rpc_request_serialization() {
    let req = RpcMessage::request(j(v(r#"1"#)), "initialize", Some(j(v(r#"{"processId": 123}"#))));
    let json_str = req.to_json_string();
    assert!(json_str.contains("\"jsonrpc\":\"2.0\""));
    assert!(json_str.contains("\"id\":1"));
    assert!(json_str.contains("\"method\":\"initialize\""));

    let deserialized = parse_rpc(&json_str).unwrap();
    assert_eq!(rpc_value(&req), rpc_value(&deserialized));
}

#[test]
fn rpc_test_rpc_response_serialization() {
    let resp = RpcMessage::response(j(v(r#""req-42""#)), j(v(r#"{"capabilities": {}}"#)));
    let json_str = resp.to_json_string();
    assert!(json_str.contains("\"id\":\"req-42\""));
    assert!(json_str.contains("\"result\":{\"capabilities\":{}}"));
    assert!(!json_str.contains("\"error\""));

    let deserialized = parse_rpc(&json_str).unwrap();
    assert_eq!(rpc_value(&resp), rpc_value(&deserialized));
}

#[test]
fn rpc_test_rpc_notification() {
    let notif = RpcMessage::notification("initialized", None);
    assert!(notif.id.is_none());
    assert_eq!(notif.method.as_deref(), Some("initialized"));
    let json_str = notif.to_json_string();
    assert!(!json_str.contains("\"id\""));
}

#[test]
fn rpc_test_rpc_error() {
    let err = RpcMessage::error(Some(j(v(r#"5"#))), -32600, "Invalid Request");
    assert_eq!(opt_value(&err.id), Some(v(r#"5"#)));
    let json_str = err.to_json_string();
    assert!(json_str.contains("\"code\":-32600"));
    assert!(json_str.contains("\"message\":\"Invalid Request\""));
}

#[test]
fn rpc_test_rpc_invalid_json() {
    assert!(parse_rpc("not a json").is_none());
}

#[test]
fn rpc_test_rpc_new_constructor() {
    let msg = RpcMessage::new(
        Some(j(v(r#"99"#))),
        Some("custom/method".to_string()),
        Some(j(v(r#"{"a": 1}"#))),
    );
    assert_eq!(msg.jsonrpc, "2.0");
    assert_eq!(opt_value(&msg.id), Some(v(r#"99"#)));
    assert_eq!(msg.method.as_deref(), Some("custom/method"));
    assert_eq!(opt_value(&msg.params), Some(v(r#"{"a": 1}"#)));
}

#[test]
fn test_id_str_variants() {
    let num_id = RpcMessage::request(j(v(r#"123"#)), "test", None);
    assert_eq!(num_id.id_str(), Some("123".to_string()));

    let str_id = RpcMessage::request(j(v(r#""req-abc""#)), "test", None);
    assert_eq!(str_id.id_str(), Some("req-abc".to_string()));

    let notif = RpcMessage::notification("test", None);
    assert_eq!(notif.id_str(), None);
}

#[test]
fn id_text_of_structured_ids() {
    let obj_id = RpcMessage::request(j(v(r#"{"b": [1, -2], "a": "x"}"#)), "test", None);
    assert_eq!(obj_id.idd(), Some("{\"a\":\"x\",\"b\":[1,-2]}".to_string()));
    let null_id = RpcMessage::new(Some(Json::Null), None, None);
    assert_eq!(null_id.id_str(), Some("null".to_string()));
}

#[test]
fn test_is_empty_result() {
    let null_resp = RpcMessage::response(j(v(r#"1"#)), j(v(r#"null"#)));
    assert!(null_resp.is_empty_result());

    let empty_arr = RpcMessage::response(j(v(r#"1"#)), j(v(r#"[]"#)));
    assert!(empty_arr.is_empty_result());

    let non_empty = RpcMessage::response(j(v(r#"1"#)), j(v(r#"[{"uri": "file:///a"}]"#)));
    assert!(!non_empty.is_empty_result());

    let scalar = RpcMessage::response(j(v(r#"1"#)), j(v(r#"{"uri": "file:///a"}"#)));
    assert!(!scalar.is_empty_result());

    let no_result = RpcMessage::notification("x", None);
    assert!(no_result.is_empty_result());
}

#[test]
fn test_into_symbol_response() {
    let ra_resp = RpcMessage::response(
        j(v(r#"1"#)),
        j(v(r#"[{"name": "Harness", "kind": 22, "location": {"uri": "file:///path/to/harn.rs"}}]"#)),
    );

    let zed_resp = ra_resp.into_symbol_response("Harness");
    assert_eq!(opt_value(&zed_resp.result), Some(v(r#"[{"uri": "file:///path/to/harn.rs"}]"#)));
}

#[test]
fn test_into_symbol_response_not_found() {
    let ra_resp = RpcMessage::response(j(v(r#"1"#)), j(v(r#"[]"#)));
    let zed_resp = ra_resp.into_symbol_response("Harness");
    assert_eq!(opt_value(&zed_resp.result), Some(v(r#"null"#)));
}

#[test]
fn into_symbol_response_without_locations_is_null() {
    let ra_resp = RpcMessage::response(j(v(r#"3"#)), j(v(r#"[{"name": "Harness", "kind": 22}]"#)));
    let zed_resp = ra_resp.into_symbol_response("Harness");
    assert_eq!(opt_value(&zed_resp.result), Some(v(r#"null"#)));
    let scalar = RpcMessage::response(j(v(r#"3"#)), j(v(r#"{"uri": "file:///x"}"#)));
    assert_eq!(opt_value(&scalar.into_symbol_response("x").result), Some(v(r#"null"#)));
}

#[test]
fn test_clone_second() {
    let init_req = RpcMessage::request(
        j(v(r#"1"#)),
        "initialize",
        Some(j(v(r#"{"processId": 1234, "rootUri": "file:///original", "capabilities": {}}"#))),
    );
    let second = init_req.clone_second("/opt/ext");
    assert!(second.is_some());
    let sec = second.unwrap();
    assert_eq!(sec.method.as_deref(), Some("initialize"));
    let sec_params = to_value(sec.params.as_ref().unwrap());
    assert!(sec_params["rootUri"].as_str().unwrap().ends_with("/harn-main"));

    let notif_init = RpcMessage::notification("initialized", None);
    assert_eq!(
        notif_init.clone_second("/opt/ext").map(|m| rpc_value(&m)),
        Some(rpc_value(&notif_init))
    );

    let notif_exit = RpcMessage::notification("exit", None);
    assert_eq!(
        notif_exit.clone_second("/opt/ext").map(|m| rpc_value(&m)),
        Some(rpc_value(&notif_exit))
    );

    let text_change = RpcMessage::notification("textDocument/didChange", None);
    assert!(text_change.clone_second("/opt/ext").is_none());
}

#[test]
fn clone_second_redirects_the_workspace() {
    let init_req = RpcMessage::request(
        j(v(r#"1"#)),
        "initialize",
        Some(j(v(r#"{"processId": 1, "rootUri": "file:///original", "capabilities": {}}"#))),
    );
    let sec = init_req.clone_second("/opt/ext").unwrap();
    assert_eq!(
        opt_value(&sec.params),
        Some(v(r#"{"processId": 1, "rootUri": "file:///opt/ext/harn-main", "rootPath": "/opt/ext/harn-main", "capabilities": {}, "workspaceFolders": [{"uri": "file:///opt/ext/harn-main", "name": "harn-main"}]}"#))
    );
    let no_params = RpcMessage::request(j(v(r#"2"#)), "initialize", Some(j(v(r#"[1]"#))));
    assert!(no_params.clone_second("/opt/ext").is_none());
}

#[test]
fn test_proxy_initialize_mirroring() {
    let client_init = RpcMessage::request(
        j(v(r#"1"#)),
        "initialize",
        Some(j(v(r#"{"processId": 1234, "rootUri": "file:///workspace/project", "capabilities": {}}"#))),
    );

    let ra_init = client_init.clone_second("/opt/ext").expect("should clone initialize");
    let ra_params = to_value(ra_init.params.as_ref().unwrap());
    assert!(ra_params["rootUri"].as_str().unwrap().ends_with("/harn-main"));
    assert_eq!(ra_params["workspaceFolders"][0]["name"], "harn-main");
}

#[test]
fn test_proxy_definition_fallback_flow() {
    // 1. Cursor is on "Harness" in the code
    let code = "fn run(h: Harness) {\n  h.execute();\n}";
    let word = get_word_at_position(code, 0, 12).expect("should extract word");
    assert_eq!(word, "Harness");

    // 2. Harn-lsp returns an empty (null) result
    let harn_resp = RpcMessage::response(j(v(r#"42"#)), Json::Null);
    assert!(harn_resp.is_empty_result());

    // 3. The proxy forms a workspace/symbol query to rust-analyzer
    let ra_query = RpcMessage::request(
        j(v(r#"42"#)),
        "workspace/symbol",
        Some(Json::Object(vec![("query".to_string(), Json::Str(word.clone()))])),
    );
    assert_eq!(opt_value(&ra_query.id), Some(v(r#"42"#)));
    assert_eq!(ra_query.method.as_deref(), Some("workspace/symbol"));

    // 4. Rust-analyzer returns candidate symbols, among them a prefix match
    let ra_resp = RpcMessage::response(
        j(v(r#"42"#)),
        j(v(r#"[
            {"name": "HarnessHelper", "kind": 12, "location": {"uri": "file:///path/to/helper.rs"}},
            {"name": "Harness", "kind": 22, "location": {"uri": "file:///path/to/harness.rs", "range": {"start": {"line": 10, "character": 0}}}}
        ]"#)),
    );

    // 5. The answer to the editor lists the ranked locations.  The exact type
    // match comes first.  The prefix match `HarnessHelper` stays, ranked
    // after it: the ranking's code and its doc comment give a prefix match
    // the score 40, and the unit test of the ranking keeps such a match, so
    // the list has two entries rather than one.
    let zed_resp = ra_resp.into_symbol_response(&word);
    assert_eq!(opt_value(&zed_resp.id), Some(v(r#"42"#)));
    let result = to_value(&zed_resp.result.unwrap());
    let locations = result.as_array().expect("result should be an array of locations");
    assert_eq!(locations.len(), 2);
    assert_eq!(locations[0]["uri"], "file:///path/to/harness.rs");
    assert_eq!(locations[0]["range"]["start"]["line"], 10);
    assert_eq!(locations[1]["uri"], "file:///path/to/helper.rs");
}

#[test]
fn test_proxy_definition_found_by_harn_no_fallback() {
    let harn_resp = RpcMessage::response(
        j(v(r#"50"#)),
        j(v(r#"{"uri": "file:///workspace/project/local.harn", "range": {"start": {"line": 5, "character": 4}}}"#)),
    );

    assert!(!harn_resp.is_empty_result());
}

// ---------------------------------------------------------------------------
// Documents

#[test]
fn test_document_store_basic() {
    let mut store = DocumentStore::new();
    assert!(store.is_empty());
    assert_eq!(store.len(), 0);

    store.insert("file:///a.harn", "let x = 1;");
    assert_eq!(store.len(), 1);
    assert!(!store.is_empty());
    assert_eq!(store.get("file:///a.harn"), Some("let x = 1;"));

    assert_eq!(store.remove("file:///a.harn"), Some("let x = 1;".to_string()));
    assert!(store.is_empty());
}

#[test]
fn test_handle_did_open() {
    let mut store = DocumentStore::new();
    let valid_params = j(v(r#"{"textDocument": {"uri": "file:///test.harn", "text": "fn main() { Harness::init(); }"}}"#));

    assert!(store.handle_did_open(Some(&valid_params)));
    assert_eq!(store.get("file:///test.harn"), Some("fn main() { Harness::init(); }"));

    let invalid_params = j(v(r#"{"textDocument": {"uri": "file:///test2.harn"}}"#));
    assert!(!store.handle_did_open(Some(&invalid_params)));
    assert!(!store.handle_did_open(None));
}

#[test]
fn test_handle_did_change() {
    let mut store = DocumentStore::new();
    store.insert("file:///test.harn", "old text");

    let change_params = j(v(r#"{"textDocument": {"uri": "file:///test.harn"}, "contentChanges": [{"text": "updated text"}]}"#));

    assert!(store.handle_did_change(Some(&change_params)));
    assert_eq!(store.get("file:///test.harn"), Some("updated text"));

    let empty_changes = j(v(r#"{"textDocument": {"uri": "file:///test.harn"}, "contentChanges": []}"#));
    assert!(!store.handle_did_change(Some(&empty_changes)));
}

#[test]
fn document_store_reads_back_and_counts() {
    let mut store = DocumentStore::default();
    store.insert("file:///a", "one");
    store.insert("file:///b", "two");
    assert_eq!(store.len(), 2);
    store.insert("file:///a", "three");
    assert_eq!(store.len(), 2);
    assert_eq!(store.get("file:///a"), Some("three"));
    assert_eq!(store.get("file:///b"), Some("two"));
    assert_eq!(store.remove("file:///missing"), None);
    assert_eq!(store.remove("file:///a"), Some("three".to_string()));
    assert_eq!(store.get("file:///a"), None);
    assert_eq!(store.len(), 1);
}

// ---------------------------------------------------------------------------
// Symbol lookup

#[test]
fn symbols_test_find_symbol_exact_priority_kind() {
    let results = js(vec![
        v(r#"{"name": "Harness", "kind": 12, "location": {"uri": "file:///src/func.rs"}}"#),
        v(r#"{"name": "Harness", "kind": 22, "location": {"uri": "file:///src/struct.rs"}}"#),
    ]);
    let loc = to_value(&find_symbol_location(&results, "Harness").unwrap());
    assert_eq!(loc["uri"], "file:///src/struct.rs");
}

#[test]
fn symbols_test_find_symbol_exact_name_secondary() {
    let results = js(vec![
        v(r#"{"name": "Other", "kind": 22, "location": {"uri": "file:///src/other.rs"}}"#),
        v(r#"{"name": "HarnessTarget", "kind": 1, "location": {"uri": "file:///src/target.rs"}}"#),
    ]);
    let loc = to_value(&find_symbol_location(&results, "HarnessTarget").unwrap());
    assert_eq!(loc["uri"], "file:///src/target.rs");
}

#[test]
fn test_find_symbol_fallback_first() {
    let results = js(vec![
        v(r#"{"name": "HarnessAlternative", "kind": 1, "location": {"uri": "file:///src/first.rs"}}"#),
        v(r#"{"name": "SomethingElse", "kind": 1, "location": {"uri": "file:///src/second.rs"}}"#),
    ]);
    let loc = to_value(&find_symbol_location(&results, "UnmatchedWord").unwrap());
    assert_eq!(loc["uri"], "file:///src/first.rs");
}

#[test]
fn symbols_test_find_symbol_empty_or_no_location() {
    assert!(find_symbol_location(&[], "Harness").is_none());
    let results = js(vec![v(r#"{"name": "Harness"}"#)]);
    assert!(find_symbol_location(&results, "Harness").is_none());
}

#[test]
fn find_symbol_location_skips_candidates_without_location() {
    let results = js(vec![
        v(r#"{"name": "Harness", "kind": 22}"#),
        v(r#"{"name": "Harness", "kind": 13, "location": {"uri": "file:///enum.rs"}}"#),
        v(r#"{"name": "Harness", "kind": 12, "location": {"uri": "file:///fn.rs"}}"#),
    ]);
    let loc = to_value(&find_symbol_location(&results, "Harness").unwrap());
    assert_eq!(loc["uri"], "file:///enum.rs");
    let no_first_location = js(vec![v(r#"{"name": "x"}"#), v(r#"{"name": "y", "location": 1}"#)]);
    assert!(find_symbol_location(&no_first_location, "z").is_none());
}

#[test]
fn test_rank_symbol_locations_ordering_and_dedup() {
    let results = js(vec![
        v(r#"{"name": "HarnessHelper", "kind": 12, "location": {"uri": "file:///src/helper.rs"}}"#),
        v(r#"{"name": "Harness", "kind": 12, "location": {"uri": "file:///src/func.rs"}}"#),
        v(r#"{"name": "Harness", "kind": 22, "location": {"uri": "file:///src/struct.rs"}}"#),
        v(r#"{"name": "Harness", "kind": 22, "location": {"uri": "file:///src/struct.rs"}}"#),
    ]);
    let ranked: Vec<Value> = rank_symbol_locations(&results, "Harness").iter().map(to_value).collect();
    assert_eq!(ranked.len(), 3);
    assert_eq!(ranked[0]["uri"], "file:///src/struct.rs");
    assert_eq!(ranked[1]["uri"], "file:///src/func.rs");
    assert_eq!(ranked[2]["uri"], "file:///src/helper.rs");
}

#[test]
fn ranking_scores_every_tier() {
    let results = js(vec![
        v(r#"{"name": "zzz", "kind": 22, "location": 1}"#),
        v(r#"{"name": "MyHarness", "kind": 22, "location": 10}"#),
        v(r#"{"name": "HarnessX", "kind": 5, "location": 50}"#),
        v(r#"{"name": "HarnessY", "kind": 12, "location": 40}"#),
        v(r#"{"name": "Harness", "kind": 1, "location": 80}"#),
        v(r#"{"name": "Harness", "kind": 6, "location": 90}"#),
        v(r#"{"name": "Harness", "kind": 11, "location": 100}"#),
        v(r#"{"name": "Harness", "kind": 13, "location": 100.0}"#),
        v(r#"{"name": "Harness", "kind": 13, "location": 0.0}"#),
        v(r#"{"name": "Harness", "kind": 13, "location": -0.0}"#),
    ]);
    let ranked: Vec<Value> = rank_symbol_locations(&results, "Harness").iter().map(to_value).collect();
    assert_eq!(ranked, vec![v(r#"100"#), v(r#"100.0"#), v(r#"0.0"#), v(r#"90"#), v(r#"80"#), v(r#"50"#), v(r#"40"#), v(r#"10"#)]);
}

#[test]
fn test_find_and_rank_symbol_location_heuristics() {
    let symbols = js(vec![
        v(r#"{"name": "foo", "kind": 12, "location": {"uri": "file:///foo_fn.rs"}}"#),
        v(r#"{"name": "Target", "kind": 22, "location": {"uri": "file:///target_struct.rs"}}"#),
    ]);

    let loc = to_value(&zed_harnlang::ranking::find_symbol_location(&symbols, "Target").unwrap());
    assert_eq!(loc["uri"], "file:///target_struct.rs");

    let loc_foo = to_value(&zed_harnlang::ranking::find_symbol_location(&symbols, "foo").unwrap());
    assert_eq!(loc_foo["uri"], "file:///foo_fn.rs");

    let loc_unmatched = zed_harnlang::ranking::find_symbol_location(&symbols, "unknown");
    assert!(loc_unmatched.is_none());

    let ranked: Vec<Value> = rank_symbol_locations(&symbols, "Target").iter().map(to_value).collect();
    assert_eq!(ranked.len(), 1);
    assert_eq!(ranked[0]["uri"], "file:///target_struct.rs");
}

#[test]
fn text_test_find_symbol_exact_priority_kind() {
    let results = js(vec![
        v(r#"{"name": "Harness", "kind": 12, "location": {"uri": "file:///src/func.rs"}}"#),
        v(r#"{"name": "Harness", "kind": 22, "location": {"uri": "file:///src/struct.rs"}}"#),
    ]);
    let loc = to_value(&zed_harnlang::ranking::find_symbol_location(&results, "Harness").unwrap());
    assert_eq!(loc["uri"], "file:///src/struct.rs");
}

#[test]
fn text_test_find_symbol_exact_name_secondary() {
    let results = js(vec![
        v(r#"{"name": "Other", "kind": 22, "location": {"uri": "file:///src/other.rs"}}"#),
        v(r#"{"name": "HarnessTarget", "kind": 1, "location": {"uri": "file:///src/target.rs"}}"#),
    ]);
    let loc =
        to_value(&zed_harnlang::ranking::find_symbol_location(&results, "HarnessTarget").unwrap());
    assert_eq!(loc["uri"], "file:///src/target.rs");
}

#[test]
fn text_test_find_symbol_empty_or_no_location() {
    assert!(zed_harnlang::ranking::find_symbol_location(&[], "Harness").is_none());
    let results = js(vec![v(r#"{"name": "Harness"}"#)]);
    assert!(zed_harnlang::ranking::find_symbol_location(&results, "Harness").is_none());
}

// ---------------------------------------------------------------------------
// Interception

#[test]
fn test_rewrite_initialize_response_sync_capability() {
    let msg = v(r#"{ "jsonrpc": "2.0", "id": 1, "result": { "capabilities": { "textDocumentSync": 2 } } }"#)
    .to_string();

    let rewritten = rewrite_initialize_response(&msg, parse_rpc(&msg));
    let parsed: Value = serde_json::from_str(&rewritten).unwrap();
    assert_eq!(parsed["result"]["capabilities"]["textDocumentSync"], v(r#"1"#));
}

#[test]
fn test_rewrite_initialize_response_no_change_when_not_applicable() {
    let msg = v(r#"{ "jsonrpc": "2.0", "id": 1, "result": { "capabilities": {} } }"#)
    .to_string();

    assert_eq!(rewrite_initialize_response(&msg, parse_rpc(&msg)), msg);
    assert_eq!(
        rewrite_initialize_response("invalid json", parse_rpc("invalid json")),
        "invalid json"
    );
}

#[test]
fn rewrite_initialize_response_keeps_other_members() {
    let msg = "{\"result\":{\"capabilities\":{\"hoverProvider\":true,\"textDocumentSync\":{\"change\":2}},\"serverInfo\":{\"name\":\"harn\"}},\"id\":7,\"jsonrpc\":\"2.0\"}";
    assert_eq!(
        rewrite_initialize_response(msg, parse_rpc(msg)),
        "{\"jsonrpc\":\"2.0\",\"id\":7,\"result\":{\"capabilities\":{\"hoverProvider\":true,\"textDocumentSync\":1},\"serverInfo\":{\"name\":\"harn\"}}}"
    );
}

#[test]
fn test_build_ra_initialize_request() {
    let msg = v(r#"{ "jsonrpc": "2.0", "id": 1, "method": "initialize", "params": {} }"#)
    .to_string();

    let ra_init = build_ra_initialize_request(parse_rpc(&msg), "/tmp/extension").unwrap();
    let parsed: Value = serde_json::from_str(&ra_init).unwrap();

    assert_eq!(parsed["params"]["rootPath"], "/tmp/extension/harn-main");
    assert_eq!(parsed["params"]["rootUri"], "file:///tmp/extension/harn-main");
    assert_eq!(parsed["params"]["workspaceFolders"][0]["name"], "harn-main");
}

#[test]
fn test_build_ra_initialize_request_non_object_params() {
    let msg = v(r#"{ "jsonrpc": "2.0", "id": 1, "method": "initialize", "params": "not-an-object" }"#)
    .to_string();

    assert_eq!(build_ra_initialize_request(parse_rpc(&msg), "/tmp/ext"), None);
}

#[test]
fn build_ra_initialize_request_joins_paths() {
    let msg = "{\"jsonrpc\":\"2.0\",\"id\":1,\"method\":\"initialize\",\"params\":{}}";
    let with_slash = build_ra_initialize_request(parse_rpc(msg), "/tmp/ext/").unwrap();
    assert_eq!(
        with_slash,
        "{\"jsonrpc\":\"2.0\",\"id\":1,\"method\":\"initialize\",\"params\":{\"rootPath\":\"/tmp/ext/harn-main\",\"rootUri\":\"file:///tmp/ext/harn-main\",\"workspaceFolders\":[{\"name\":\"harn-main\",\"uri\":\"file:///tmp/ext/harn-main\"}]}}"
    );
    assert_eq!(build_ra_initialize_request(None, "/tmp/ext"), None);
}

#[test]
fn test_check_definition_request_intercepted() {
    let mut docs = DocumentStore::new();
    let uri = "file:///sample.harn";
    docs.insert(uri, "let h = Harness::new();");

    let def_req = RpcMessage::request(
        j(v(r#"10"#)),
        "textDocument/definition",
        Some(j(v(r#"{ "textDocument": { "uri": "file:///sample.harn" }, "position": { "line": 0, "character": 9 } }"#))),
    );

    match check_definition_request(&def_req, &docs) {
        DefinitionIntercept::Intercepted { id, word, ra_query_message } => {
            assert_eq!(to_value(&id), v(r#"10"#));
            assert_eq!(word, "Harness");
            let parsed: Value = serde_json::from_str(&ra_query_message).unwrap();
            assert_eq!(parsed["method"], "workspace/symbol");
            assert_eq!(parsed["params"]["query"], "Harness");
            assert_eq!(
                ra_query_message,
                "{\"id\":10,\"jsonrpc\":\"2.0\",\"method\":\"workspace/symbol\",\"params\":{\"query\":\"Harness\"}}"
            );
        }
        DefinitionIntercept::Forward => panic!("Expected intercepted definition request"),
    }
}

#[test]
fn test_check_definition_request_forward() {
    let mut docs = DocumentStore::new();
    let uri = "file:///sample.harn";
    docs.insert(uri, "let h = NonHarness::new();");

    let def_req = RpcMessage::request(
        j(v(r#"11"#)),
        "textDocument/definition",
        Some(j(v(r#"{ "textDocument": { "uri": "file:///sample.harn" }, "position": { "line": 0, "character": 9 } }"#))),
    );

    assert!(matches!(check_definition_request(&def_req, &docs), DefinitionIntercept::Forward));

    let hover_req = RpcMessage::request(
        j(v(r#"12"#)),
        "textDocument/hover",
        Some(j(v(r#"{ "textDocument": { "uri": "file:///sample.harn" }, "position": { "line": 0, "character": 9 } }"#))),
    );
    assert!(matches!(check_definition_request(&hover_req, &docs), DefinitionIntercept::Forward));
}

#[test]
fn check_definition_request_needs_document_and_id() {
    let docs = DocumentStore::new();
    let params = j(v(r#"{"textDocument": {"uri": "file:///none"}, "position": {"line": 0, "character": 1}}"#));
    let req = RpcMessage::request(j(v(r#"1"#)), "textDocument/definition", Some(params.copy()));
    assert!(matches!(check_definition_request(&req, &docs), DefinitionIntercept::Forward));

    let mut docs2 = DocumentStore::new();
    docs2.insert("file:///none", "Harness");
    let no_id = RpcMessage::notification("textDocument/definition", Some(params));
    assert!(matches!(check_definition_request(&no_id, &docs2), DefinitionIntercept::Forward));
}

#[test]
fn test_rewrite_symbol_response() {
    let ra_resp = RpcMessage::response(
        j(v(r#"10"#)),
        j(v(r#"[{"name": "Harness", "kind": 22, "location": {"uri": "file:///crates/harn-vm/src/harness.rs", "range": {"start": {"line": 1, "character": 0}}}}]"#)),
    );

    let rewritten = rewrite_symbol_response(&ra_resp, "Harness");
    let parsed: Value = serde_json::from_str(&rewritten).unwrap();
    assert_eq!(parsed["result"]["uri"], "file:///crates/harn-vm/src/harness.rs");
}

#[test]
fn test_rewrite_symbol_response_empty_or_no_match() {
    let ra_resp = RpcMessage::response(j(v(r#"5"#)), j(v(r#"[]"#)));
    let rewritten = rewrite_symbol_response(&ra_resp, "Harness");
    let parsed: Value = serde_json::from_str(&rewritten).unwrap();
    assert_eq!(parsed["result"], v(r#"null"#));
}

#[test]
fn test_resolve_commands() {
    let dir = "/tmp/test_resolve_cmds";
    // Without binaries present -> returns default commands
    assert_eq!(resolve_harn_lsp_command(dir, false), "harn-lsp");
    assert_eq!(resolve_rust_analyzer_command(dir, false), "rust-analyzer");
    // With binaries present
    assert_eq!(resolve_harn_lsp_command(dir, true), "/tmp/test_resolve_cmds/harn-bin/harn");
    assert_eq!(resolve_rust_analyzer_command(dir, true), "/tmp/test_resolve_cmds/rust-analyzer");
    assert_eq!(resolve_harn_lsp_command("", true), "harn-bin/harn");
}

#[test]
fn cursor_file_position_strips_the_scheme() {
    let params = j(v(r#"{"textDocument": {"uri": "file:///tmp/a.harn"}, "position": {"line": 2, "character": 21}}"#));
    assert_eq!(cursor_file_position(&params), Some(("/tmp/a.harn".to_string(), 2, 21)));
    let other = j(v(r#"{"textDocument": {"uri": "untitled:1"}, "position": {"line": 0, "character": 0}}"#));
    assert_eq!(cursor_file_position(&other), Some(("untitled:1".to_string(), 0, 0)));
    let missing = j(v(r#"{"textDocument": {"uri": "file:///a"}, "position": {"line": -1, "character": 0}}"#));
    assert_eq!(cursor_file_position(&missing), None);
}

#[test]
fn word_at_cursor_reads_the_word() {
    let params = j(v(r#"{"textDocument": {"uri": "file:///tmp/test_lsp_cursor.harn"}, "position": {"line": 0, "character": 21}}"#));
    let (path, line, col) = cursor_file_position(&params).unwrap();
    assert_eq!(path, "/tmp/test_lsp_cursor.harn");
    let text = "fn test_cursor() { Harness::init(); }";
    assert_eq!(get_word_at_position(text, line as usize, col as usize), Some("Harness".to_string()));
}

// ---------------------------------------------------------------------------
// Framing

/// Reads one message from `buf` at `*pos` as the proxy does: header lines up
/// to a blank line, then the announced number of bytes.
fn read_frame(buf: &[u8], pos: &mut usize) -> Option<RpcMessage> {
    let mut length = 0usize;
    loop {
        if *pos >= buf.len() {
            return None;
        }
        let end = match buf[*pos..].iter().position(|b| *b == b'\n') {
            Some(i) => *pos + i + 1,
            None => buf.len(),
        };
        let line = std::str::from_utf8(&buf[*pos..end]).ok()?;
        *pos = end;
        match header_step(length, line) {
            HeaderStep::Continue(n) => length = n,
            HeaderStep::Stop => return None,
            HeaderStep::Body(n) => {
                if *pos + n > buf.len() {
                    return None;
                }
                let body = std::str::from_utf8(&buf[*pos..*pos + n]).ok()?;
                *pos += n;
                return parse_rpc(body);
            }
        }
    }
}

#[test]
fn test_format_message() {
    let msg = r#"{"jsonrpc":"2.0"}"#;
    let formatted = format_message(msg);
    assert_eq!(formatted, format!("Content-Length: {}\r\n\r\n{}", msg.len(), msg));
}

#[test]
fn format_message_counts_bytes() {
    assert_eq!(format_message("привет"), "Content-Length: 12\r\n\r\nпривет");
    assert_eq!(format_message(""), "Content-Length: 0\r\n\r\n");
}

#[test]
fn test_write_and_read_message() {
    let original_msg = RpcMessage::request(j(v(r#""req-id""#)), "ping", None);
    let buffer = frame_message(&original_msg).into_bytes();
    let mut pos = 0;
    let read = read_frame(&buffer, &mut pos).unwrap();
    assert_eq!(rpc_value(&read), rpc_value(&original_msg));
}

#[test]
fn test_read_multiple_messages() {
    let msg1 = RpcMessage::request(j(v(r#""req-id-1""#)), "ping", None);
    let msg2 = RpcMessage::request(j(v(r#""req-id-2""#)), "pong", None);
    let s1 = msg1.to_json_string();
    let s2 = msg2.to_json_string();
    let raw = format!(
        "Content-Length: {}\r\n\r\n{}Content-Length: {}\r\n\r\n{}",
        s1.len(),
        s1,
        s2.len(),
        s2
    );
    let buf = raw.into_bytes();
    let mut pos = 0;
    assert_eq!(read_frame(&buf, &mut pos).map(|m| rpc_value(&m)), Some(rpc_value(&msg1)));
    assert_eq!(read_frame(&buf, &mut pos).map(|m| rpc_value(&m)), Some(rpc_value(&msg2)));
    assert!(read_frame(&buf, &mut pos).is_none());
}

#[test]
fn test_read_message_with_extra_headers() {
    let msg = RpcMessage::request(j(v(r#""req-id""#)), "ping", None);
    let s = msg.to_json_string();
    let raw = format!(
        "Content-Type: application/vscode-jsonrpc; charset=utf-8\r\nContent-Length: {}\r\n\r\n{}",
        s.len(),
        s
    );
    let buf = raw.into_bytes();
    let mut pos = 0;
    assert_eq!(read_frame(&buf, &mut pos).map(|m| rpc_value(&m)), Some(rpc_value(&msg)));
}

#[test]
fn test_read_message_eof_or_empty() {
    let mut pos = 0;
    assert!(read_frame(&[], &mut pos).is_none());
    let zero_length = "Content-Length: 0\r\n\r\n";
    let mut pos2 = 0;
    assert!(read_frame(zero_length.as_bytes(), &mut pos2).is_none());
}

#[test]
fn test_read_message_truncated_payload() {
    let raw = "Content-Length: 20\r\n\r\nshort";
    let mut pos = 0;
    assert!(read_frame(raw.as_bytes(), &mut pos).is_none());
}

#[test]
fn header_lines_are_parsed_like_str_parse() {
    assert_eq!(header_step(0, "Content-Length: 17\r\n"), HeaderStep::Continue(17));
    assert_eq!(header_step(5, "Content-Length:  +42 \t\r\n"), HeaderStep::Continue(42));
    assert_eq!(header_step(5, "Content-Length: Content-Length: 8\r\n"), HeaderStep::Continue(8));
    assert_eq!(header_step(5, "Content-Length: x\r\n"), HeaderStep::Continue(0));
    assert_eq!(header_step(5, "Content-Length: -3\r\n"), HeaderStep::Continue(0));
    assert_eq!(header_step(5, "Content-Length: +\r\n"), HeaderStep::Continue(0));
    assert_eq!(
        header_step(5, "Content-Length: 99999999999999999999999\r\n"),
        HeaderStep::Continue(0)
    );
    assert_eq!(header_step(5, "content-length: 3\r\n"), HeaderStep::Continue(5));
    assert_eq!(header_step(5, "\r\n"), HeaderStep::Body(5));
    assert_eq!(header_step(0, "\r\n"), HeaderStep::Stop);
    assert_eq!(header_step(0, "\n"), HeaderStep::Continue(0));
    for n in [1usize, 9, 10, 123, 4096] {
        let framed = format_message(&"x".repeat(n));
        let line = framed.split_inclusive('\n').next().unwrap();
        assert_eq!(header_step(0, line), HeaderStep::Continue(n));
        assert_eq!(header_step(n, "\r\n"), HeaderStep::Body(n));
    }
    assert_eq!(
        header_step(0, &format!("Content-Length: {}\r\n", usize::MAX)),
        HeaderStep::Continue(usize::MAX)
    );
    for s in ["", "+", "-1", "+7", "007", "1_0", " 4", "18446744073709551616", "٣"] {
        assert_eq!(
            header_step(1, &format!("Content-Length: {s}")),
            HeaderStep::Continue(s.trim().parse::<usize>().unwrap_or(0)),
            "{s:?}"
        );
    }
}

#[test]
fn whitespace_matches_char_is_whitespace() {
    for v in 0u32..0x110000 {
        if let Some(c) = char::from_u32(v) {
            assert_eq!(zed_harnlang::transport::char_is_whitespace(c), c.is_whitespace(), "{v:#x}");
        }
    }
}

// ---------------------------------------------------------------------------
// The proxy's routing

#[test]
fn proxy_intercepts_and_answers_definitions() {
    let mut proxy = Proxy::new();
    let open = "{\"jsonrpc\":\"2.0\",\"method\":\"textDocument/didOpen\",\"params\":{\"textDocument\":{\"uri\":\"file:///m.harn\",\"text\":\"fn run(h: Harness) {\\n  h.execute();\\n}\"}}}";
    let parsed = parse_rpc(open);
    assert!(proxy.supports(&parsed));
    let routed = proxy.on_editor_message(open, parsed, "/ext");
    assert_eq!(routed.to_harn.as_deref(), Some(open));
    assert_eq!(routed.to_rust_analyzer, None);
    assert!(!routed.stop);

    let def = "{\"jsonrpc\":\"2.0\",\"id\":42,\"method\":\"textDocument/definition\",\"params\":{\"textDocument\":{\"uri\":\"file:///m.harn\"},\"position\":{\"line\":0,\"character\":12}}}";
    let parsed = parse_rpc(def);
    assert!(proxy.supports(&parsed));
    let routed = proxy.on_editor_message(def, parsed, "/ext");
    assert_eq!(routed.to_harn, None);
    assert_eq!(
        routed.to_rust_analyzer.as_deref(),
        Some("{\"id\":42,\"jsonrpc\":\"2.0\",\"method\":\"workspace/symbol\",\"params\":{\"query\":\"Harness\"}}")
    );

    let other = "{\"jsonrpc\":\"2.0\",\"id\":41,\"result\":[]}";
    assert_eq!(proxy.on_analyzer_message(parse_rpc(other)), None);

    let reply = "{\"jsonrpc\":\"2.0\",\"id\":42,\"result\":[{\"name\":\"HarnessHelper\",\"kind\":12,\"location\":{\"uri\":\"file:///helper.rs\"}},{\"name\":\"Harness\",\"kind\":22,\"location\":{\"uri\":\"file:///harness.rs\"}}]}";
    let answer = proxy.on_analyzer_message(parse_rpc(reply)).unwrap();
    assert_eq!(answer, "{\"jsonrpc\":\"2.0\",\"id\":42,\"result\":{\"uri\":\"file:///harness.rs\"}}");
    assert_eq!(proxy.on_analyzer_message(parse_rpc(reply)), None);
}

#[test]
fn proxy_routes_lifecycle_messages() {
    let mut proxy = Proxy::new();
    let init = "{\"jsonrpc\":\"2.0\",\"id\":1,\"method\":\"initialize\",\"params\":{\"processId\":7}}";
    let routed = proxy.on_editor_message(init, parse_rpc(init), "/ext");
    assert_eq!(routed.to_harn.as_deref(), Some(init));
    assert_eq!(
        routed.to_rust_analyzer.as_deref(),
        Some("{\"jsonrpc\":\"2.0\",\"id\":1,\"method\":\"initialize\",\"params\":{\"processId\":7,\"rootPath\":\"/ext/harn-main\",\"rootUri\":\"file:///ext/harn-main\",\"workspaceFolders\":[{\"name\":\"harn-main\",\"uri\":\"file:///ext/harn-main\"}]}}")
    );
    let init_no_params = "{\"jsonrpc\":\"2.0\",\"id\":2,\"method\":\"initialize\"}";
    let routed = proxy.on_editor_message(init_no_params, parse_rpc(init_no_params), "/ext");
    assert_eq!(routed.to_rust_analyzer.as_deref(), Some(init_no_params));

    let initialized = "{\"jsonrpc\":\"2.0\",\"method\":\"initialized\",\"params\":{}}";
    let routed = proxy.on_editor_message(initialized, parse_rpc(initialized), "/ext");
    assert_eq!(routed.to_harn.as_deref(), Some(initialized));
    assert_eq!(routed.to_rust_analyzer.as_deref(), Some(initialized));

    let hover = "{\"jsonrpc\":\"2.0\",\"id\":3,\"method\":\"textDocument/hover\"}";
    let routed = proxy.on_editor_message(hover, parse_rpc(hover), "/ext");
    assert_eq!(routed.to_harn.as_deref(), Some(hover));
    assert_eq!(routed.to_rust_analyzer, None);

    let garbage = "{not json";
    let routed = proxy.on_editor_message(garbage, parse_rpc(garbage), "/ext");
    assert_eq!(routed.to_harn, None);
    assert_eq!(routed.to_rust_analyzer, None);

    let exit = "{\"jsonrpc\":\"2.0\",\"method\":\"exit\"}";
    let routed = proxy.on_editor_message(exit, parse_rpc(exit), "/ext");
    assert_eq!(routed.to_harn.as_deref(), Some(exit));
    assert_eq!(routed.to_rust_analyzer.as_deref(), Some(exit));
    assert!(routed.stop);
}

#[test]
fn proxy_rejects_positions_inside_characters() {
    let mut proxy = Proxy::new();
    let open = "{\"jsonrpc\":\"2.0\",\"method\":\"textDocument/didOpen\",\"params\":{\"textDocument\":{\"uri\":\"file:///u\",\"text\":\"let привет = 1;\"}}}";
    proxy.on_editor_message(open, parse_rpc(open), "/ext");
    let inside = "{\"jsonrpc\":\"2.0\",\"id\":1,\"method\":\"textDocument/definition\",\"params\":{\"textDocument\":{\"uri\":\"file:///u\"},\"position\":{\"line\":0,\"character\":5}}}";
    assert!(!proxy.supports(&parse_rpc(inside)));
    let boundary = "{\"jsonrpc\":\"2.0\",\"id\":1,\"method\":\"textDocument/definition\",\"params\":{\"textDocument\":{\"uri\":\"file:///u\"},\"position\":{\"line\":0,\"character\":6}}}";
    assert!(proxy.supports(&parse_rpc(boundary)));
}

#[test]
fn proxy_answers_definitions_without_id_with_a_null_query() {
    let mut proxy = Proxy::new();
    let open = "{\"jsonrpc\":\"2.0\",\"method\":\"textDocument/didOpen\",\"params\":{\"textDocument\":{\"uri\":\"file:///m.harn\",\"text\":\"HarnessObs\"}}}";
    proxy.on_editor_message(open, parse_rpc(open), "/ext");
    let def = "{\"jsonrpc\":\"2.0\",\"method\":\"textDocument/definition\",\"params\":{\"textDocument\":{\"uri\":\"file:///m.harn\"},\"position\":{\"line\":0,\"character\":3}}}";
    let parsed = parse_rpc(def);
    assert!(proxy.supports(&parsed));
    let routed = proxy.on_editor_message(def, parsed, "/ext");
    assert_eq!(routed.to_harn, None);
    assert_eq!(
        routed.to_rust_analyzer.as_deref(),
        Some("{\"id\":null,\"jsonrpc\":\"2.0\",\"method\":\"workspace/symbol\",\"params\":{\"query\":\"HarnessObs\"}}")
    );
    assert!(!routed.stop);
    // Nothing waits for an answer: a reply is dropped.
    let reply = "{\"jsonrpc\":\"2.0\",\"id\":0,\"result\":[]}";
    assert_eq!(proxy.on_analyzer_message(parse_rpc(reply)), None);
}

#[test]
fn proxy_stops_at_first_match_even_without_location() {
    let mut proxy = Proxy::new();
    let open = "{\"jsonrpc\":\"2.0\",\"method\":\"textDocument/didOpen\",\"params\":{\"textDocument\":{\"uri\":\"file:///m.harn\",\"text\":\"Harness\"}}}";
    proxy.on_editor_message(open, parse_rpc(open), "/ext");
    let def = "{\"jsonrpc\":\"2.0\",\"id\":\"a\",\"method\":\"textDocument/definition\",\"params\":{\"textDocument\":{\"uri\":\"file:///m.harn\"},\"position\":{\"line\":0,\"character\":0}}}";
    let routed = proxy.on_editor_message(def, parse_rpc(def), "/ext");
    assert_eq!(
        routed.to_rust_analyzer.as_deref(),
        Some("{\"id\":\"a\",\"jsonrpc\":\"2.0\",\"method\":\"workspace/symbol\",\"params\":{\"query\":\"Harness\"}}")
    );
    let reply = "{\"jsonrpc\":\"2.0\",\"id\":\"a\",\"result\":[{\"name\":\"Harness\",\"kind\":22},{\"name\":\"Harness\",\"kind\":22,\"location\":{\"uri\":\"file:///harness.rs\"}}]}";
    let answer = proxy.on_analyzer_message(parse_rpc(reply)).unwrap();
    assert_eq!(answer, "{\"jsonrpc\":\"2.0\",\"id\":\"a\",\"result\":null}");
}

#[test]
fn answered_symbol_location_passes_and_fallback() {
    let exact_kind = js(vec![
        v(r#"{"name": "Harness", "kind": 12, "location": {"uri": "file:///fn.rs"}}"#),
        v(r#"{"name": "Harness", "kind": 22, "location": {"uri": "file:///struct.rs"}}"#),
    ]);
    assert_eq!(opt_value(&answered_symbol_location(&exact_kind, "Harness")), Some(v(r#"{"uri": "file:///struct.rs"}"#)));
    let by_name = js(vec![
        v(r#"{"name": "Other", "kind": 22, "location": {"uri": "file:///other.rs"}}"#),
        v(r#"{"name": "Harness", "kind": 12, "location": {"uri": "file:///fn.rs"}}"#),
    ]);
    assert_eq!(opt_value(&answered_symbol_location(&by_name, "Harness")), Some(v(r#"{"uri": "file:///fn.rs"}"#)));
    let fallback = js(vec![
        v(r#"{"name": "Other", "kind": 22, "location": {"uri": "file:///other.rs"}}"#),
        v(r#"{"name": "Else", "kind": 12}"#),
    ]);
    assert_eq!(opt_value(&answered_symbol_location(&fallback, "Harness")), Some(v(r#"{"uri": "file:///other.rs"}"#)));
    let first_without = js(vec![v(r#"{"name": "Else"}"#), v(r#"{"name": "Other", "location": {"uri": "file:///o.rs"}}"#)]);
    assert_eq!(opt_value(&answered_symbol_location(&first_without, "Harness")), None);
    assert_eq!(opt_value(&answered_symbol_location(&[], "Harness")), None);
}

#[test]
fn answer_symbol_query_rewrites_the_result() {
    let reply = RpcMessage::response(j(v(r#"3"#)), j(v(r#"[{"name": "HarnessObs", "kind": 22, "location": {"uri": "file:///obs.rs"}}]"#)));
    assert_eq!(answer_symbol_query(&reply, "HarnessObs"), "{\"jsonrpc\":\"2.0\",\"id\":3,\"result\":{\"uri\":\"file:///obs.rs\"}}");
    let not_array = RpcMessage::response(j(v(r#"3"#)), j(v(r#"{"a": 1}"#)));
    assert_eq!(answer_symbol_query(&not_array, "HarnessObs"), "{\"jsonrpc\":\"2.0\",\"id\":3,\"result\":null}");
}

#[test]
fn definition_request_word_and_query_text() {
    let mut docs = DocumentStore::new();
    docs.insert("file:///s.harn", "let h = HarnessFs::new();");
    let params = j(v(r#"{"textDocument": {"uri": "file:///s.harn"}, "position": {"line": 0, "character": 10}}"#));
    let no_id = RpcMessage::notification("textDocument/definition", Some(params.copy()));
    assert_eq!(definition_request_word(&no_id, &docs).as_deref(), Some("HarnessFs"));
    let with_id = RpcMessage::request(j(v(r#"7"#)), "textDocument/definition", Some(params));
    assert_eq!(definition_request_word(&with_id, &docs).as_deref(), Some("HarnessFs"));
    let other = RpcMessage::request(
        j(v(r#"7"#)),
        "textDocument/definition",
        Some(j(v(r#"{"textDocument": {"uri": "file:///s.harn"}, "position": {"line": 0, "character": 1}}"#))),
    );
    assert_eq!(definition_request_word(&other, &docs), None);
    assert_eq!(
        symbol_query_text(&Json::Null, "HarnessFs"),
        "{\"id\":null,\"jsonrpc\":\"2.0\",\"method\":\"workspace/symbol\",\"params\":{\"query\":\"HarnessFs\"}}"
    );
    assert_eq!(
        symbol_query_text(&Json::Str("x".to_string()), "H"),
        "{\"id\":\"x\",\"jsonrpc\":\"2.0\",\"method\":\"workspace/symbol\",\"params\":{\"query\":\"H\"}}"
    );
}

#[test]
fn ranking_keeps_order_among_equal_scores() {
    let results = js(vec![
        v(r#"{"name": "HarnessB", "kind": 12, "location": "b"}"#),
        v(r#"{"name": "Harness", "kind": 13, "location": "c"}"#),
        v(r#"{"name": "HarnessA", "kind": 6, "location": "a"}"#),
        v(r#"{"name": "Harness", "kind": 22, "location": "d"}"#),
    ]);
    let ranked: Vec<Value> = rank_symbol_locations(&results, "Harness").iter().map(to_value).collect();
    assert_eq!(ranked, vec![v(r#""c""#), v(r#""d""#), v(r#""b""#), v(r#""a""#)]);
}

#[test]
fn rewrite_initialize_response_twice_is_once() {
    let msg = "{\"jsonrpc\":\"2.0\",\"id\":3,\"result\":{\"capabilities\":{\"textDocumentSync\":{\"change\":2},\"hoverProvider\":true}}}";
    let once = rewrite_initialize_response(msg, parse_rpc(msg));
    assert_ne!(once, msg);
    let twice = rewrite_initialize_response(&once, parse_rpc(&once));
    assert_eq!(twice, once);
}

fn delivered(d: Delivery) -> (&'static str, Value) {
    match d {
        Delivery::ToEditor(m) => ("editor", rpc_value(&m)),
        Delivery::ToRustAnalyzer(m) => ("rust-analyzer", rpc_value(&m)),
        Delivery::LookUpWord(p) => ("look up", to_value(&p)),
        Delivery::Drop => ("drop", Value::Null),
    }
}

#[test]
fn fallback_proxy_asks_rust_analyzer_when_harn_finds_nothing() {
    let mut proxy = FallbackProxy::new();
    let params = r#"{"textDocument": {"uri": "file:///w/a.harn"}, "position": {"line": 0, "character": 3}}"#;
    let def = RpcMessage::request(j(v("5")), "textDocument/definition", Some(j(v(params))));
    let (to_harn, to_ra) = proxy.on_editor_message(def.copy(), "/ext");
    assert_eq!(rpc_value(&to_harn), rpc_value(&def));
    assert!(to_ra.is_none());

    let empty = RpcMessage::response(j(v("5")), j(v("[]")));
    let first = proxy.on_harn_message(empty.copy());
    assert_eq!(delivered(first), ("look up", v(params)));
    let asked = proxy.on_harn_word(empty, Some("HarnessFs".to_string()));
    assert_eq!(
        delivered(asked),
        ("rust-analyzer", v(r#"{"jsonrpc": "2.0", "id": 5, "method": "workspace/symbol", "params": {"query": "HarnessFs"}}"#))
    );

    let reply = RpcMessage::response(
        j(v("5")),
        j(v(r#"[{"name": "HarnessFsHelper", "kind": 12, "location": "h"}, {"name": "HarnessFs", "kind": 22, "location": "s"}]"#)),
    );
    assert_eq!(
        delivered(proxy.on_analyzer_message(reply.copy())),
        ("editor", v(r#"{"jsonrpc": "2.0", "id": 5, "result": ["s", "h"]}"#))
    );
    assert_eq!(delivered(proxy.on_analyzer_message(reply)), ("drop", Value::Null));
}

#[test]
fn fallback_proxy_passes_harn_answers_and_mirrors_lifecycle() {
    let mut proxy = FallbackProxy::new();
    let init = RpcMessage::request(j(v("1")), "initialize", Some(j(v("{}"))));
    let (to_harn, to_ra) = proxy.on_editor_message(init.copy(), "/ext");
    assert_eq!(rpc_value(&to_harn), rpc_value(&init));
    assert_eq!(
        rpc_value(&to_ra.unwrap()),
        v(r#"{"jsonrpc": "2.0", "id": 1, "method": "initialize", "params": {"rootUri": "file:///ext/harn-main", "rootPath": "/ext/harn-main", "workspaceFolders": [{"uri": "file:///ext/harn-main", "name": "harn-main"}]}}"#)
    );

    let found = RpcMessage::response(j(v("1")), j(v(r#"{"capabilities": {}}"#)));
    assert_eq!(delivered(proxy.on_harn_message(found.copy())), ("editor", rpc_value(&found)));
    // The request was answered and forgotten: an empty answer now passes.
    let empty = RpcMessage::response(j(v("1")), Json::Null);
    assert_eq!(delivered(proxy.on_harn_message(empty.copy())), ("editor", rpc_value(&empty)));

    // No word under the cursor: the empty answer goes to the editor.
    let def = RpcMessage::request(j(v(r#""x""#)), "textDocument/definition", Some(j(v("{}"))));
    proxy.on_editor_message(def, "/ext");
    let empty_x = RpcMessage::response(j(v(r#""x""#)), j(v("[]")));
    assert_eq!(delivered(proxy.on_harn_message(empty_x.copy())), ("look up", v("{}")));
    assert_eq!(delivered(proxy.on_harn_word(empty_x.copy(), None)), ("editor", rpc_value(&empty_x)));
    assert_eq!(delivered(proxy.on_harn_message(empty_x.copy())), ("editor", rpc_value(&empty_x)));

    let stray = RpcMessage::response(j(v("9")), j(v("[]")));
    assert_eq!(delivered(proxy.on_analyzer_message(stray)), ("drop", Value::Null));
}

#[test]
fn json_text_of_simple_values() {
    let resp = RpcMessage::response(j(v(r#"-7"#)), j(v(r#"[null, true, false, 120, "plain text"]"#)));
    assert_eq!(
        resp.to_json_string(),
        "{\"jsonrpc\":\"2.0\",\"id\":-7,\"result\":[null,true,false,120,\"plain text\"]}"
    );
}
