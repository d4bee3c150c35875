use kei::codec::response_line;
use kei::json::JsonValue;
use kei::server::{Reply, Server, ToolCall};
use kei::transport::{
    answer_line, blank, body_too_long_error, frame_line, parse_error, push_decimal, LineAnswer, LineStep,
    MAX_LINE_BYTES,
};

fn message_of(response: &JsonValue) -> Option<&JsonValue> {
    response.get("error")?.get("message")
}

#[test]
fn body_of_exactly_the_limit_is_accepted_with_any_terminator() {
    let body = vec![b' '; MAX_LINE_BYTES - 2]
        .into_iter()
        .chain(b"{}".iter().copied())
        .collect::<Vec<u8>>();
    assert_eq!(body.len(), MAX_LINE_BYTES);
    for terminator in [&b""[..], &b"\n"[..], &b"\r\n"[..]] {
        let mut line = body.clone();
        line.extend_from_slice(terminator);
        match frame_line(line) {
            LineStep::Text(text) => assert_eq!(text.len(), MAX_LINE_BYTES),
            _ => panic!("a body of exactly the limit must be accepted"),
        }
    }
}

#[test]
fn body_one_byte_over_the_limit_is_refused_with_any_terminator() {
    let body = vec![b'1'; MAX_LINE_BYTES + 1];
    for terminator in [&b""[..], &b"\n"[..], &b"\r\n"[..]] {
        let mut line = body.clone();
        line.extend_from_slice(terminator);
        match frame_line(line) {
            LineStep::TooLong(response) => {
                assert_eq!(response.get("error").and_then(|e| e.get("code")), Some(&JsonValue::Int(-32600)));
                assert_eq!(response.get("id"), Some(&JsonValue::Null));
            },
            _ => panic!("a body over the limit must be refused"),
        }
    }
}

#[test]
fn body_too_long_message_names_the_limit() {
    let response = body_too_long_error(MAX_LINE_BYTES);
    assert_eq!(
        message_of(&response),
        Some(&JsonValue::Str(
            "Invalid Request: JSON body exceeds 1048576-byte limit (line terminator excluded)".to_string()
        ))
    );
}

#[test]
fn blank_lines_and_text_lines() {
    assert!(matches!(frame_line(b"\n".to_vec()), LineStep::Blank));
    assert!(matches!(frame_line(b"  \t \r\n".to_vec()), LineStep::Blank));
    assert!(matches!(frame_line(Vec::new()), LineStep::Blank));
    match frame_line(b"{\"a\":1}\r\n".to_vec()) {
        LineStep::Text(text) => assert_eq!(text, "{\"a\":1}"),
        _ => panic!("expected text"),
    }
    match frame_line(b"x\r".to_vec()) {
        LineStep::Text(text) => assert_eq!(text, "x\r"),
        _ => panic!("a lone CR without LF is not a terminator"),
    }
}

#[test]
fn invalid_utf8_is_reported() {
    match frame_line(vec![0xff, 0xfe, b'\n']) {
        LineStep::InvalidUtf8(response) => {
            assert_eq!(response.get("id"), Some(&JsonValue::Null));
            assert_eq!(response.get("error").and_then(|e| e.get("code")), Some(&JsonValue::Int(-32700)));
            assert_eq!(message_of(&response), Some(&JsonValue::Str("Parse error: invalid UTF-8".to_string())));
        },
        _ => panic!("invalid UTF-8 must get a parse error"),
    }
}

#[test]
fn blank_agrees_with_trim() {
    for s in ["", " ", "\t\n", "\u{3000}\u{a0}", "\u{2009}", "a", " a ", "\u{200b}"] {
        assert_eq!(blank(s), s.trim().is_empty(), "{s:?}");
    }
}

#[test]
fn parse_error_response() {
    let response = parse_error("expected value at line 1 column 1");
    assert_eq!(response.get("id"), Some(&JsonValue::Null));
    assert_eq!(response.get("error").and_then(|e| e.get("code")), Some(&JsonValue::Int(-32700)));
    assert_eq!(
        message_of(&response),
        Some(&JsonValue::Str("Parse error: expected value at line 1 column 1".to_string()))
    );
}

#[test]
fn decimal_rendering() {
    for n in [0usize, 7, 10, 99, 100, 1048576, usize::MAX] {
        let mut out = String::from("n=");
        push_decimal(&mut out, n);
        assert_eq!(out, format!("n={n}"));
    }
}

#[test]
fn bounded_read_of_an_over_long_line_is_refused() {
    // What the transport buffers of a line far over the limit: its first
    // MAX_LINE_BYTES + 2 bytes, cut inside a multi-byte character.
    let mut line = vec![b'x'; MAX_LINE_BYTES + 1];
    line.extend_from_slice("é and more\n".as_bytes());
    line.truncate(MAX_LINE_BYTES + 2);
    match frame_line(line) {
        LineStep::TooLong(response) => {
            assert_eq!(response.get("error").and_then(|e| e.get("code")), Some(&JsonValue::Int(-32600)));
        },
        _ => panic!("the bounded read of an over-long line must be refused"),
    }
}

fn answered(line: &[u8]) -> Option<JsonValue> {
    match answer_line(&Server::new(), line.to_vec()) {
        LineAnswer::Answer(Reply::Message(response)) => Some(response),
        LineAnswer::Answer(Reply::Silent) => None,
        _ => panic!("expected a direct answer"),
    }
}

#[test]
fn a_ping_line_is_answered_with_one_response_line() {
    let response = answered(b"{\"jsonrpc\":\"2.0\",\"id\":1,\"method\":\"ping\"}\n").expect("answered");
    assert_eq!(response.get("id"), Some(&JsonValue::Number("1".to_string())));
    assert_eq!(response_line(&response), "{\"id\":1,\"jsonrpc\":\"2.0\",\"result\":{}}\n");
}

#[test]
fn a_line_that_is_not_json_gets_a_parse_error() {
    let response = answered(b"not json\n").expect("answered");
    assert_eq!(response.get("error").and_then(|e| e.get("code")), Some(&JsonValue::Int(-32700)));
    assert_eq!(response.get("id"), Some(&JsonValue::Null));
    match response.get("error").and_then(|e| e.get("message")) {
        Some(JsonValue::Str(message)) => assert!(message.starts_with("Parse error: "), "{message}"),
        other => panic!("unexpected message {other:?}"),
    }
}

#[test]
fn invalid_utf8_then_ping_are_both_answered() {
    let first = answered(&[0xFF, b'\n']).expect("answered");
    assert_eq!(first.get("error").and_then(|e| e.get("code")), Some(&JsonValue::Int(-32700)));
    let second = answered(b"{\"jsonrpc\":\"2.0\",\"id\":1,\"method\":\"ping\"}\n").expect("answered");
    assert_eq!(response_line(&second), "{\"id\":1,\"jsonrpc\":\"2.0\",\"result\":{}}\n");
}

#[test]
fn notifications_and_blank_lines_get_nothing() {
    assert_eq!(answered(b"{\"jsonrpc\":\"2.0\",\"method\":\"notifications/initialized\"}\n"), None);
    assert_eq!(answered(b"   \r\n"), None);
}

#[test]
fn an_over_long_line_stops_the_connection() {
    let mut line = vec![b' '; MAX_LINE_BYTES + 1];
    line.push(b'\n');
    match answer_line(&Server::new(), line) {
        LineAnswer::Stop(response) => {
            assert_eq!(response.get("error").and_then(|e| e.get("code")), Some(&JsonValue::Int(-32600)));
        },
        _ => panic!("expected the connection to stop"),
    }
}

#[test]
fn a_tools_call_line_runs_the_tool() {
    let line = b"{\"jsonrpc\":\"2.0\",\"id\":\"t\",\"method\":\"tools/call\",\"params\":{\"name\":\"kei_fmt\",\"arguments\":{\"source\":\"module m\"}}}\n";
    match answer_line(&Server::new(), line.to_vec()) {
        LineAnswer::Answer(Reply::RunTool { id, call: ToolCall::Fmt { source } }) => {
            assert_eq!(id, JsonValue::Str("t".to_string()));
            assert_eq!(source, "module m");
        },
        _ => panic!("expected a kei_fmt run"),
    }
}

#[test]
fn response_lines_write_numbers_from_their_text() {
    let value = JsonValue::Object(vec![
        ("a".to_string(), JsonValue::Number("2.5".to_string())),
        ("b".to_string(), JsonValue::Int(-3)),
    ]);
    assert_eq!(response_line(&value), "{\"a\":2.5,\"b\":-3}\n");
}
