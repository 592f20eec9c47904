//! The server dispatcher: lifecycle, tools, logging, cancellation.

use mcp_core::jobman::TaskEvent;
use mcp_core::json::{to_json_text, JsonValue};
use mcp_core::logging::LoggingLevel;
use mcp_core::rpc::{decode_message, encode_message, JSONRPCMessage, JSONRPCRequest, JSONRPCNotification, RequestId};
use mcp_core::schema::{LoadType, Tool, ToolInputSchema};
use mcp_core::server::{Server, ServerConfig, ServerState};
use mcp_core::transport::ChainContext;

fn obj(members: Vec<(&str, JsonValue)>) -> JsonValue {
    JsonValue::Obj(members.into_iter().map(|(k, v)| (k.to_string(), v)).collect())
}

fn s(text: &str) -> JsonValue {
    JsonValue::Str(text.to_string())
}

fn test_server() -> Server {
    let config = ServerConfig::new().with_name("MCP Server").with_version("1.0.0").with_tools(
        Tool {
            name: "test_tool".to_string(),
            description: None,
            input_schema: ToolInputSchema { kind: "object".to_string(), properties: None, required: None },
        },
    );
    let mut server = Server::new(config);
    server.register_tool_handler("test_tool".to_string()).expect("the tool is configured");
    server
}

fn request(id: i64, method: &str, params: Option<JsonValue>) -> JSONRPCMessage {
    JSONRPCMessage::Request(JSONRPCRequest::new(RequestId::Number(id), method.to_string(), params))
}

fn notification(method: &str, params: Option<JsonValue>) -> JSONRPCMessage {
    JSONRPCMessage::Notification(JSONRPCNotification::new(method.to_string(), params))
}

fn session_ctx(sid: &str) -> Option<ChainContext> {
    Some(ChainContext { data: vec![("sessionId".to_string(), sid.to_string())] })
}

fn bring_up(server: &mut Server, sid: &str) {
    server.handle_message(session_ctx(sid), request(1, "initialize", None)).unwrap();
    server.handle_message(session_ctx(sid), notification("notifications/initialized", None)).unwrap();
    assert!(server.state == ServerState::Running);
}

#[test]
fn wrong_state_is_refused() {
    // a request before initialization is answered with an invalid-request
    // error whose message points at initialization
    let mut server = test_server();
    let r = server.handle_message(None, request(9, "tools/list", None));
    assert!(r.is_err());
    assert_eq!(server.outbox.len(), 1);
    match &server.outbox[0] {
        JSONRPCMessage::Error(e) => {
            assert!(matches!(e.id, RequestId::Number(9)));
            assert_eq!(e.error.code, -32600);
            assert!(e.error.message.contains("initialize"));
        },
        _ => panic!("an error response was expected"),
    }
    assert!(server.state == ServerState::Uninitialized);
}

#[test]
fn initialize_reports_identity_and_capabilities() {
    let mut server = test_server();
    server.handle_message(session_ctx("abc"), request(1, "initialize", None)).unwrap();
    assert!(server.state == ServerState::Initialized);
    assert_eq!(server.outbox.len(), 1);
    match &server.outbox[0] {
        JSONRPCMessage::Response(resp) => {
            let text = to_json_text(&resp.result);
            assert!(text.contains("\"protocolVersion\":\"2025-03-26\""));
            assert!(text.contains("\"name\":\"MCP Server\""));
            assert!(text.contains("\"version\":\"1.0.0\""));
            assert!(text.contains("\"tools\":{\"listChanged\":false}"));
        },
        _ => panic!("initialize must be answered with a response"),
    }
}

#[test]
fn happy_tool_call_streams_a_fragment() {
    let mut server = test_server();
    bring_up(&mut server, "abc");
    // the listing names the tool
    server.handle_message(None, request(2, "tools/list", None)).unwrap();
    match server.outbox.last().unwrap() {
        JSONRPCMessage::Response(resp) => {
            assert!(to_json_text(&resp.result).contains("\"name\":\"test_tool\""));
        },
        _ => panic!("tools/list must be answered with a response"),
    }
    // the call starts a job and replies nothing yet
    let before = server.outbox.len();
    let js = server
        .handle_message(
            None,
            request(3, "tools/call", Some(obj(vec![
                ("name", s("test_tool")),
                ("arguments", obj(vec![("msg", s("hi"))])),
            ]))),
        )
        .unwrap();
    assert_eq!(js.len(), 1);
    assert_eq!(js[0].tool, "test_tool");
    assert_eq!(server.outbox.len(), before);
    // a text fragment goes out as a response under the call's id
    server
        .poll_jobs(&vec![(RequestId::Number(3), TaskEvent::Data(LoadType::Text, "hi".to_string()))])
        .unwrap();
    match server.outbox.last().unwrap() {
        JSONRPCMessage::Response(resp) => {
            assert!(matches!(resp.id, RequestId::Number(3)));
            let text = to_json_text(&resp.result);
            assert!(text.contains("\"type\":\"text\""));
            assert!(text.contains("\"text\":\"hi\""));
            assert!(text.contains("\"isError\":false"));
        },
        _ => panic!("a fragment must go out as a response"),
    }
}

#[test]
fn unknown_tool_fails_with_the_tool_error() {
    let mut server = test_server();
    bring_up(&mut server, "abc");
    let js = server
        .handle_message(None, request(4, "tools/call", Some(obj(vec![("name", s("missing"))]))))
        .unwrap();
    assert_eq!(js.len(), 0);
    match server.outbox.last().unwrap() {
        JSONRPCMessage::Error(e) => {
            assert_eq!(e.error.code, -32000);
            assert!(e.error.message.contains("Tool execution failed"));
        },
        _ => panic!("an unknown tool must be answered with an error"),
    }
}

#[test]
fn cancellation_stops_the_stream() {
    // the handler would emit "a", "b", "c"; the client cancels after "b",
    // so no further message carries the call's id
    let mut server = test_server();
    bring_up(&mut server, "abc");
    server
        .handle_message(None, request(3, "tools/call", Some(obj(vec![("name", s("test_tool"))]))))
        .unwrap();
    server
        .poll_jobs(&vec![
            (RequestId::Number(3), TaskEvent::Data(LoadType::Text, "a".to_string())),
            (RequestId::Number(3), TaskEvent::Data(LoadType::Text, "b".to_string())),
        ])
        .unwrap();
    let seen = server.outbox.len();
    server
        .handle_message(
            None,
            notification(
                "notifications/cancelled",
                Some(obj(vec![("requestId", JsonValue::Int(3)), ("reason", s("user"))])),
            ),
        )
        .unwrap();
    server
        .poll_jobs(&vec![(RequestId::Number(3), TaskEvent::Data(LoadType::Text, "c".to_string()))])
        .unwrap();
    assert_eq!(server.outbox.len(), seen, "nothing more goes out after the cancellation");
}

#[test]
fn done_evicts_the_job() {
    let mut server = test_server();
    bring_up(&mut server, "abc");
    server
        .handle_message(None, request(5, "tools/call", Some(obj(vec![("name", s("test_tool"))]))))
        .unwrap();
    server.poll_jobs(&vec![(RequestId::Number(5), TaskEvent::Done)]).unwrap();
    let seen = server.outbox.len();
    server
        .poll_jobs(&vec![(RequestId::Number(5), TaskEvent::Data(LoadType::Text, "late".to_string()))])
        .unwrap();
    assert_eq!(server.outbox.len(), seen, "a finished job emits nothing more");
}

#[test]
fn duplicate_call_ids_replace_the_job() {
    let mut server = test_server();
    bring_up(&mut server, "abc");
    server
        .handle_message(None, request(6, "tools/call", Some(obj(vec![("name", s("test_tool"))]))))
        .unwrap();
    server
        .handle_message(None, request(6, "tools/call", Some(obj(vec![("name", s("test_tool"))]))))
        .unwrap();
    // one job under the id: one cancellation silences it
    server
        .handle_message(
            None,
            notification(
                "notifications/cancelled",
                Some(obj(vec![("requestId", JsonValue::Int(6))])),
            ),
        )
        .unwrap();
    let seen = server.outbox.len();
    server
        .poll_jobs(&vec![(RequestId::Number(6), TaskEvent::Data(LoadType::Text, "x".to_string()))])
        .unwrap();
    assert_eq!(server.outbox.len(), seen);
}

#[test]
fn unknown_notification_changes_nothing() {
    let mut server = test_server();
    bring_up(&mut server, "abc");
    let before = server.outbox.len();
    server.handle_message(None, notification("notifications/foo", None)).unwrap();
    assert_eq!(server.outbox.len(), before);
    assert!(server.state == ServerState::Running);
}

#[test]
fn unknown_request_is_an_invalid_request() {
    let mut server = test_server();
    bring_up(&mut server, "abc");
    server.handle_message(None, request(8, "prompts/list", None)).unwrap();
    match server.outbox.last().unwrap() {
        JSONRPCMessage::Error(e) => assert_eq!(e.error.code, -32600),
        _ => panic!("an unknown request must be answered with an error"),
    }
}

#[test]
fn ping_carries_a_timestamp() {
    let mut server = test_server();
    let before = server.outbox.len();
    server.handle_message(None, request(2, "ping", None)).unwrap();
    assert_eq!(server.outbox.len(), before + 1);
    match server.outbox.last().unwrap() {
        JSONRPCMessage::Response(resp) => {
            assert!(to_json_text(&resp.result).contains("\"timestamp\":"));
        },
        _ => panic!("ping must be answered with a response"),
    }
}

#[test]
fn shutdown_replies_and_requests_the_stop() {
    let mut server = test_server();
    bring_up(&mut server, "abc");
    server.handle_message(None, request(4, "shutdown", None)).unwrap();
    assert!(server.stop_requested);
    assert!(server.state == ServerState::Shutdown);
    match server.outbox.last().unwrap() {
        JSONRPCMessage::Response(resp) => assert_eq!(to_json_text(&resp.result), "{}"),
        _ => panic!("shutdown must be answered with a response"),
    }
    // once shut down, further gated requests are refused again
    assert!(server.handle_message(None, request(5, "tools/list", None)).is_err());
}

#[test]
fn log_filter_respects_the_session_level() {
    // the session asks for warnings and above: info is dropped, error goes
    // out exactly once
    let mut server = test_server();
    bring_up(&mut server, "abc");
    server
        .handle_message(
            session_ctx("abc"),
            request(4, "logging/setLevel", Some(obj(vec![("level", s("warning"))]))),
        )
        .unwrap();
    let before = server.outbox.len();
    server.send_log(LoggingLevel::Info, "x");
    assert_eq!(server.outbox.len(), before, "a record below the level is dropped");
    server.send_log(LoggingLevel::Error, "y");
    assert_eq!(server.outbox.len(), before + 1, "a record at or above the level goes out");
    match server.outbox.last().unwrap() {
        JSONRPCMessage::Notification(n) => {
            assert_eq!(n.method, "notifications/message");
            let text = to_json_text(n.params.as_ref().unwrap());
            assert!(text.contains("\"level\":\"error\""));
            assert!(text.contains("\"data\":\"y\""));
        },
        _ => panic!("a log record goes out as a notification"),
    }
}

#[test]
fn log_without_a_session_is_dropped() {
    let mut server = test_server();
    // no initialize, so no session exists under the local id
    let before = server.outbox.len();
    server.send_log(LoggingLevel::Emergency, "nobody listens");
    assert_eq!(server.outbox.len(), before);
}

#[test]
fn wire_level_conversation() {
    // the happy flow at the byte level: texts in, texts out
    let mut server = test_server();
    let inbound = [
        "{\"jsonrpc\":\"2.0\",\"id\":1,\"method\":\"initialize\",\"params\":{\"protocolVersion\":\"2025-03-26\",\"clientInfo\":{\"name\":\"t\",\"version\":\"1\"},\"capabilities\":{\"roots\":{\"listChanged\":false}}}}",
        "{\"jsonrpc\":\"2.0\",\"method\":\"notifications/initialized\",\"params\":{}}",
        "{\"jsonrpc\":\"2.0\",\"id\":2,\"method\":\"tools/list\"}",
    ];
    for text in inbound {
        let message = decode_message(text).expect("the wire text decodes");
        server.handle_message(None, message).unwrap();
    }
    assert!(server.state == ServerState::Running);
    assert_eq!(server.outbox.len(), 2);
    let first = encode_message(&server.outbox[0]);
    assert!(first.contains("\"id\":1"));
    assert!(first.contains("\"serverInfo\":{\"name\":\"MCP Server\",\"version\":\"1.0.0\"}"));
    assert!(first.contains("\"protocolVersion\":\"2025-03-26\""));
    let second = encode_message(&server.outbox[1]);
    assert!(second.contains("\"id\":2"));
    assert!(second.contains("\"tools\":[{\"name\":\"test_tool\",\"inputSchema\":{\"type\":\"object\"}}]"));
}

#[test]
fn empty_and_null_params_are_tolerated() {
    let mut server = test_server();
    bring_up(&mut server, "abc");
    // an empty params object has no tool name: the call fails with an
    // invalid-params error
    assert!(server
        .handle_message(None, request(7, "tools/call", Some(obj(vec![]))))
        .is_err());
    match server.outbox.last().unwrap() {
        JSONRPCMessage::Error(e) => assert_eq!(e.error.code, -32602),
        _ => panic!("an error response was expected"),
    }
    // a null params value is no better
    assert!(server
        .handle_message(None, request(8, "tools/call", Some(JsonValue::Null)))
        .is_err());
    // and absent params on a listing are fine
    assert!(server.handle_message(None, request(9, "tools/list", None)).is_ok());
}

#[test]
fn bad_level_params_are_an_invalid_params_error() {
    let mut server = test_server();
    bring_up(&mut server, "abc");
    assert!(server
        .handle_message(None, request(4, "logging/setLevel", Some(obj(vec![]))))
        .is_err());
    match server.outbox.last().unwrap() {
        JSONRPCMessage::Error(e) => {
            assert!(matches!(e.id, RequestId::Number(4)));
            assert_eq!(e.error.code, -32602);
        },
        _ => panic!("an error response was expected"),
    }
}

#[test]
fn initialize_without_a_session_key_creates_no_session() {
    let mut server = test_server();
    server.handle_message(None, request(1, "initialize", None)).unwrap();
    assert!(!server.sessions.has_session("local"));
    // and re-initializing with a key preserves an existing session's state
    let mut server2 = test_server();
    bring_up(&mut server2, "abc");
    server2
        .handle_message(
            session_ctx("abc"),
            request(4, "logging/setLevel", Some(obj(vec![("level", s("warning"))]))),
        )
        .unwrap();
    server2.handle_message(session_ctx("abc"), request(5, "initialize", None)).unwrap();
    let session = server2.sessions.get_session(&"abc".to_string()).expect("still live");
    assert_eq!(session.get_item("debug_level").as_deref(), Some("warning"));
}
