use kei::json::JsonValue;
use kei::server::{
    initialize_result, modern_protocol_version, negotiate_protocol_version, tool_response,
    Reply, Server, ToolCall, ToolOutcome, DEFAULT_PROTOCOL_VERSION, META_PROTOCOL_VERSION_KEY,
    MODERN_SUPPORTED_PROTOCOL_VERSIONS, SERVER_NAME, SUPPORTED_PROTOCOL_VERSIONS,
};

fn text(x: &str) -> JsonValue {
    JsonValue::Str(x.to_string())
}

fn obj(pairs: Vec<(&str, JsonValue)>) -> JsonValue {
    JsonValue::Object(pairs.into_iter().map(|(k, v)| (k.to_string(), v)).collect())
}

fn at<'a>(value: &'a JsonValue, path: &[&str]) -> Option<&'a JsonValue> {
    let mut current = value;
    for key in path {
        current = current.get(key)?;
    }
    Some(current)
}

fn str_array(items: &[&str]) -> JsonValue {
    JsonValue::Array(items.iter().map(|s| text(s)).collect())
}

/// The response of a message that is answered directly.
fn respond(server: &Server, request: &JsonValue) -> Option<JsonValue> {
    match server.handle(request) {
        Reply::Silent => None,
        Reply::Message(response) => Some(response),
        Reply::RunTool { .. } => panic!("unexpected tool call"),
    }
}

#[test]
fn default_version_is_the_first_supported_version() {
    assert_eq!(
        DEFAULT_PROTOCOL_VERSION, SUPPORTED_PROTOCOL_VERSIONS[0],
        "SUPPORTED_PROTOCOL_VERSIONS must be ordered newest-first"
    );
    let mut sorted = SUPPORTED_PROTOCOL_VERSIONS.to_vec();
    sorted.sort_unstable();
    sorted.reverse();
    assert_eq!(
        sorted, SUPPORTED_PROTOCOL_VERSIONS,
        "SUPPORTED_PROTOCOL_VERSIONS must be ordered newest-first"
    );
}

#[test]
fn negotiation_echoes_back_every_supported_version() {
    for supported in SUPPORTED_PROTOCOL_VERSIONS.iter() {
        assert_eq!(negotiate_protocol_version(Some(supported)), *supported);
    }
}

#[test]
fn negotiation_falls_back_when_version_unsupported() {
    for requested in ["2025-03-26", "1.0.0", "", "2099-01-01"] {
        assert_eq!(
            negotiate_protocol_version(Some(requested)),
            DEFAULT_PROTOCOL_VERSION,
            "unsupported version {requested} must fall back to the default"
        );
    }
}

#[test]
fn negotiation_falls_back_when_version_absent() {
    assert_eq!(negotiate_protocol_version(None), DEFAULT_PROTOCOL_VERSION);
}

#[test]
fn initialize_result_negotiates_from_params() {
    let echoed = initialize_result(&obj(vec![("protocolVersion", text("2024-11-05"))]));
    assert_eq!(at(&echoed, &["protocolVersion"]), Some(&text("2024-11-05")));

    let fallback = initialize_result(&obj(vec![("protocolVersion", text("1.0.0"))]));
    assert_eq!(at(&fallback, &["protocolVersion"]), Some(&text(DEFAULT_PROTOCOL_VERSION)));

    let absent = initialize_result(&obj(vec![]));
    assert_eq!(at(&absent, &["protocolVersion"]), Some(&text(DEFAULT_PROTOCOL_VERSION)));

    let wrong_type = initialize_result(&obj(vec![("protocolVersion", JsonValue::Int(20251125))]));
    assert_eq!(at(&wrong_type, &["protocolVersion"]), Some(&text(DEFAULT_PROTOCOL_VERSION)));

    let null_params = initialize_result(&JsonValue::Null);
    assert_eq!(at(&null_params, &["protocolVersion"]), Some(&text(DEFAULT_PROTOCOL_VERSION)));
}

#[test]
fn initialize_result_declares_tools_capability() {
    let result = initialize_result(&obj(vec![]));
    assert!(
        matches!(at(&result, &["capabilities", "tools"]), Some(JsonValue::Object(_))),
        "servers that support tools MUST declare the tools capability"
    );
}

#[test]
fn non_object_message_returns_invalid_request() {
    let server = Server::new();
    for non_object in [
        JsonValue::Array(vec![JsonValue::Int(1), JsonValue::Int(2), JsonValue::Int(3)]),
        text("just a string"),
        JsonValue::Int(42),
        JsonValue::Bool(true),
        JsonValue::Null,
    ] {
        let response = respond(&server, &non_object)
            .unwrap_or_else(|| panic!("non-object message {non_object:?} must get a response"));
        assert_eq!(at(&response, &["jsonrpc"]), Some(&text("2.0")));
        assert_eq!(response.get("id"), Some(&JsonValue::Null), "id must be present and null: {response:?}");
        assert_eq!(at(&response, &["error", "code"]), Some(&JsonValue::Int(-32600)));
        assert!(
            response.get("result").is_none(),
            "error response must not carry a result: {response:?}"
        );
    }
}

#[test]
fn object_notification_without_id_still_gets_no_response() {
    let server = Server::new();
    let notification = obj(vec![("jsonrpc", text("2.0")), ("method", text("notifications/initialized"))]);
    assert!(matches!(server.handle(&notification), Reply::Silent));
}

#[test]
fn discover_returns_supported_versions_and_server_info() {
    let server = Server::new();
    let request = obj(vec![
        ("jsonrpc", text("2.0")),
        ("id", JsonValue::Int(1)),
        ("method", text("server/discover")),
        ("params", obj(vec![("_meta", obj(vec![(META_PROTOCOL_VERSION_KEY, text("2026-07-28"))]))])),
    ]);
    let response = respond(&server, &request).expect("discover responds");
    assert_eq!(
        at(&response, &["result", "supportedVersions"]),
        Some(&str_array(&MODERN_SUPPORTED_PROTOCOL_VERSIONS))
    );
    assert!(matches!(at(&response, &["result", "capabilities", "tools"]), Some(JsonValue::Object(_))));
    assert_eq!(
        at(&response, &["result", "_meta", "io.modelcontextprotocol/serverInfo", "name"]),
        Some(&text(SERVER_NAME))
    );
}

#[test]
fn discover_without_meta_still_responds() {
    let server = Server::new();
    let request = obj(vec![("jsonrpc", text("2.0")), ("id", JsonValue::Int(1)), ("method", text("server/discover"))]);
    let response = respond(&server, &request).expect("discover responds");
    assert_eq!(
        at(&response, &["result", "supportedVersions"]),
        Some(&str_array(&MODERN_SUPPORTED_PROTOCOL_VERSIONS))
    );
}

#[test]
fn modern_request_with_unsupported_version_returns_dash_32022() {
    let server = Server::new();
    let request = obj(vec![
        ("jsonrpc", text("2.0")),
        ("id", JsonValue::Int(7)),
        ("method", text("tools/list")),
        ("params", obj(vec![("_meta", obj(vec![(META_PROTOCOL_VERSION_KEY, text("1900-01-01"))]))])),
    ]);
    let response = respond(&server, &request).expect("responds");
    assert_eq!(at(&response, &["error", "code"]), Some(&JsonValue::Int(-32022)));
    assert_eq!(at(&response, &["error", "data", "requested"]), Some(&text("1900-01-01")));
    assert_eq!(
        at(&response, &["error", "data", "supported"]),
        Some(&str_array(&MODERN_SUPPORTED_PROTOCOL_VERSIONS))
    );
    assert!(
        response.get("result").is_none(),
        "unsupported version must not fall through to the method handler"
    );
}

#[test]
fn modern_request_with_supported_version_dispatches_normally() {
    let server = Server::new();
    let request = obj(vec![
        ("jsonrpc", text("2.0")),
        ("id", JsonValue::Int(8)),
        ("method", text("tools/list")),
        ("params", obj(vec![("_meta", obj(vec![(META_PROTOCOL_VERSION_KEY, text("2026-07-28"))]))])),
    ]);
    let response = respond(&server, &request).expect("responds");
    assert!(
        response.get("error").is_none(),
        "supported version must dispatch without error: {response:?}"
    );
    assert!(matches!(at(&response, &["result", "tools"]), Some(JsonValue::Array(_))));
}

#[test]
fn initialize_always_uses_legacy_negotiation_even_with_modern_meta() {
    let server = Server::new();
    let request = obj(vec![
        ("jsonrpc", text("2.0")),
        ("id", JsonValue::Int(9)),
        ("method", text("initialize")),
        (
            "params",
            obj(vec![
                ("protocolVersion", text("2025-11-25")),
                ("_meta", obj(vec![(META_PROTOCOL_VERSION_KEY, text("1900-01-01"))])),
            ]),
        ),
    ]);
    let response = respond(&server, &request).expect("responds");
    assert!(
        response.get("error").is_none(),
        "initialize must not be treated as an unsupported modern version: {response:?}"
    );
    assert_eq!(at(&response, &["result", "protocolVersion"]), Some(&text("2025-11-25")));
}

#[test]
fn modern_protocol_version_ignores_malformed_meta() {
    assert_eq!(modern_protocol_version(&obj(vec![])), None);
    assert_eq!(modern_protocol_version(&obj(vec![("_meta", text("not-an-object"))])), None);
    assert_eq!(
        modern_protocol_version(&obj(vec![("_meta", obj(vec![(META_PROTOCOL_VERSION_KEY, JsonValue::Int(123))]))])),
        None
    );
    assert_eq!(
        modern_protocol_version(&obj(vec![("_meta", obj(vec![(META_PROTOCOL_VERSION_KEY, text("2026-07-28"))]))])),
        Some("2026-07-28")
    );
}

#[test]
fn request_id_is_echoed_in_every_response() {
    let server = Server::new();
    for id in [JsonValue::Int(5), text("abc"), JsonValue::Null, JsonValue::Number("1.5".to_string())] {
        for method in ["ping", "tools/list", "initialize", "server/discover", "no/such"] {
            let request = obj(vec![("jsonrpc", text("2.0")), ("id", id.deep_clone()), ("method", text(method))]);
            let response = respond(&server, &request).expect("responds");
            assert_eq!(response.get("id"), Some(&id), "{method}");
            assert_eq!(at(&response, &["jsonrpc"]), Some(&text("2.0")));
        }
    }
}

#[test]
fn ping_answers_an_empty_object() {
    let server = Server::new();
    let request = obj(vec![("jsonrpc", text("2.0")), ("id", JsonValue::Int(3)), ("method", text("ping"))]);
    let response = respond(&server, &request).expect("responds");
    assert_eq!(response.get("result"), Some(&obj(vec![])));
}

#[test]
fn unknown_method_is_method_not_found() {
    let server = Server::new();
    let request = obj(vec![("jsonrpc", text("2.0")), ("id", JsonValue::Int(4)), ("method", text("resources/list"))]);
    let response = respond(&server, &request).expect("responds");
    assert_eq!(at(&response, &["error", "code"]), Some(&JsonValue::Int(-32601)));
    assert_eq!(at(&response, &["error", "message"]), Some(&text("Method not found: resources/list")));
}

#[test]
fn missing_or_non_string_method_is_invalid_request() {
    let server = Server::new();
    for request in [
        obj(vec![("jsonrpc", text("2.0")), ("id", JsonValue::Int(4))]),
        obj(vec![("jsonrpc", text("2.0")), ("id", JsonValue::Int(4)), ("method", JsonValue::Int(1))]),
    ] {
        let response = respond(&server, &request).expect("responds");
        assert_eq!(at(&response, &["error", "code"]), Some(&JsonValue::Int(-32600)));
        assert_eq!(at(&response, &["error", "message"]), Some(&text("Invalid Request: missing 'method'")));
        assert_eq!(response.get("id"), Some(&JsonValue::Int(4)));
    }
}

#[test]
fn tools_list_names_the_four_tools() {
    let server = Server::new();
    let request = obj(vec![("jsonrpc", text("2.0")), ("id", JsonValue::Int(2)), ("method", text("tools/list"))]);
    let response = respond(&server, &request).expect("responds");
    let tools = match at(&response, &["result", "tools"]) {
        Some(JsonValue::Array(items)) => items,
        other => panic!("tools must be an array: {other:?}"),
    };
    let names: Vec<&JsonValue> = tools.iter().map(|t| t.get("name").expect("name")).collect();
    assert_eq!(names, vec![&text("kei_spec"), &text("kei_check"), &text("kei_fmt"), &text("kei_examples")]);
    assert_eq!(at(&tools[1], &["inputSchema", "required"]), Some(&str_array(&["source"])));
    assert_eq!(at(&tools[1], &["inputSchema", "properties", "generative", "type"]), Some(&text("boolean")));
    assert_eq!(at(&tools[0], &["inputSchema", "additionalProperties"]), Some(&JsonValue::Bool(false)));
}

fn tool_call(name: Option<&str>, arguments: Option<JsonValue>) -> Reply {
    let mut params = Vec::new();
    if let Some(n) = name {
        params.push(("name", text(n)));
    }
    if let Some(a) = arguments {
        params.push(("arguments", a));
    }
    let request = obj(vec![
        ("jsonrpc", text("2.0")),
        ("id", JsonValue::Int(11)),
        ("method", text("tools/call")),
        ("params", obj(params)),
    ]);
    Server::new().handle(&request)
}

#[test]
fn tools_call_without_name_is_invalid_params() {
    match tool_call(None, None) {
        Reply::Message(response) => {
            assert_eq!(at(&response, &["error", "code"]), Some(&JsonValue::Int(-32602)));
            assert_eq!(at(&response, &["error", "message"]), Some(&text("Invalid params: missing tool 'name'")));
        },
        _ => panic!("expected an error response"),
    }
}

#[test]
fn tools_call_reads_and_validates_arguments() {
    match tool_call(Some("kei_check"), Some(obj(vec![("source", text("module m")), ("generative", JsonValue::Bool(true))]))) {
        Reply::RunTool { id, call: ToolCall::Check { source, generative } } => {
            assert_eq!(id, JsonValue::Int(11));
            assert_eq!(source, "module m");
            assert!(generative);
        },
        _ => panic!("expected kei_check"),
    }
    match tool_call(Some("kei_check"), Some(obj(vec![("source", text("m")), ("generative", JsonValue::Null)]))) {
        Reply::RunTool { call: ToolCall::Check { generative, .. }, .. } => assert!(!generative),
        _ => panic!("expected kei_check"),
    }
    match tool_call(Some("kei_check"), Some(obj(vec![("source", text("m")), ("generative", text("yes"))]))) {
        Reply::RunTool { call: ToolCall::InvalidArgument { key, expected }, .. } => {
            assert_eq!(key, "generative");
            assert_eq!(expected, "boolean");
        },
        _ => panic!("expected an invalid argument"),
    }
    match tool_call(Some("kei_fmt"), None) {
        Reply::RunTool { call: ToolCall::MissingArgument { key }, .. } => assert_eq!(key, "source"),
        _ => panic!("expected a missing argument"),
    }
    match tool_call(Some("kei_spec"), Some(text("not an object"))) {
        Reply::RunTool { call: ToolCall::Spec { topic }, .. } => assert_eq!(topic, ""),
        _ => panic!("expected kei_spec"),
    }
    match tool_call(Some("kei_examples"), Some(obj(vec![("query", text("effects"))]))) {
        Reply::RunTool { call: ToolCall::Examples { query }, .. } => assert_eq!(query, "effects"),
        _ => panic!("expected kei_examples"),
    }
    match tool_call(Some("kei_run"), None) {
        Reply::RunTool { call: ToolCall::UnknownTool { name }, .. } => assert_eq!(name, "kei_run"),
        _ => panic!("expected an unknown tool"),
    }
}

#[test]
fn tool_response_wraps_the_outcome() {
    let outcome = ToolOutcome { text: "formatted".to_string(), is_error: false };
    let response = tool_response(JsonValue::Int(2), &outcome);
    assert_eq!(response.get("id"), Some(&JsonValue::Int(2)));
    assert_eq!(at(&response, &["result", "isError"]), Some(&JsonValue::Bool(false)));
    let content = match at(&response, &["result", "content"]) {
        Some(JsonValue::Array(items)) => items,
        other => panic!("content must be an array: {other:?}"),
    };
    assert_eq!(content.len(), 1);
    assert_eq!(content[0], obj(vec![("type", text("text")), ("text", text("formatted"))]));
}

#[test]
fn generative_absent_null_and_false_are_the_same_check() {
    let forms = vec![
        obj(vec![("source", text("module m"))]),
        obj(vec![("source", text("module m")), ("generative", JsonValue::Null)]),
        obj(vec![("source", text("module m")), ("generative", JsonValue::Bool(false))]),
    ];
    for arguments in forms {
        match tool_call(Some("kei_check"), Some(arguments)) {
            Reply::RunTool { id, call: ToolCall::Check { source, generative } } => {
                assert_eq!(id, JsonValue::Int(11));
                assert_eq!(source, "module m");
                assert!(!generative);
            },
            _ => panic!("expected a kei_check run"),
        }
    }
}

#[test]
fn supported_modern_version_answers_as_without_the_declaration() {
    let server = Server::new();
    let with_version = obj(vec![
        ("jsonrpc", text("2.0")),
        ("id", JsonValue::Int(9)),
        ("method", text("tools/call")),
        (
            "params",
            obj(vec![
                ("name", text("kei_fmt")),
                ("arguments", obj(vec![("source", text("module m"))])),
                ("_meta", obj(vec![(META_PROTOCOL_VERSION_KEY, text("2026-07-28")), ("trace", text("t1"))])),
            ]),
        ),
    ]);
    let without_version = obj(vec![
        ("jsonrpc", text("2.0")),
        ("id", JsonValue::Int(9)),
        ("method", text("tools/call")),
        (
            "params",
            obj(vec![
                ("name", text("kei_fmt")),
                ("arguments", obj(vec![("source", text("module m"))])),
                ("_meta", obj(vec![("trace", text("t1"))])),
            ]),
        ),
    ]);
    for request in [&with_version, &without_version] {
        match server.handle(request) {
            Reply::RunTool { id, call: ToolCall::Fmt { source } } => {
                assert_eq!(id, JsonValue::Int(9));
                assert_eq!(source, "module m");
            },
            _ => panic!("expected a kei_fmt run"),
        }
    }
    let ping = |meta: JsonValue| {
        obj(vec![("jsonrpc", text("2.0")), ("id", JsonValue::Int(3)), ("method", text("ping")), ("params", obj(vec![("_meta", meta)]))])
    };
    assert_eq!(
        respond(&server, &ping(obj(vec![(META_PROTOCOL_VERSION_KEY, text("2026-07-28"))]))),
        respond(&server, &ping(obj(vec![]))),
    );
}
