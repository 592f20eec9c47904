//! The client dispatcher: ids, request building, and response correlation.

use mcp_core::client::{Client, ClientProvider};
use mcp_core::errors::MCPError;
use mcp_core::json::{to_json_text, JsonValue};
use mcp_core::logging::LoggingLevel;
use mcp_core::rpc::{
    encode_message, JSONRPCMessage, JSONRPCResponse, JSONRPCError, JSONRPCErrorObject,
    RequestId,
};
use mcp_core::builders::{build_client_request, build_server_notification};
use mcp_core::schema::{
    CallToolParams, ClientRequest, ProgressNotification, ProgressParams, ProgressToken,
    ReadResourceParams, ReadResourceRequest, ServerNotification,
};

struct QuietProvider;

impl ClientProvider for QuietProvider {
    fn client_ping_response(&self, _id: RequestId, _params: Option<JsonValue>) -> Result<
        (),
        MCPError,
    > {
        Ok(())
    }

    fn client_list_roots(&self, _id: RequestId, _params: Option<JsonValue>) -> Result<
        (),
        MCPError,
    > {
        Ok(())
    }

    fn client_sampling_message(&self, _id: RequestId, _params: Option<JsonValue>) -> Result<
        (),
        MCPError,
    > {
        Ok(())
    }

    fn client_logs(&self, _params: Option<JsonValue>) -> Result<(), MCPError> {
        Ok(())
    }
}

fn id_number(id: &RequestId) -> i64 {
    match id {
        RequestId::Number(n) => *n,
        RequestId::String(_) => panic!("a numeric id was expected"),
    }
}

#[test]
fn successive_requests_carry_strictly_increasing_ids() {
    let mut client = Client::new(QuietProvider);
    let a = client.make_ping_request();
    let b = client.make_list_tools_request(None);
    let c = client.make_shutdown_request();
    assert_eq!(id_number(&a.id), 1);
    assert_eq!(id_number(&b.id), 2);
    assert_eq!(id_number(&c.id), 3);
    assert!(id_number(&a.id) < id_number(&b.id));
    assert!(id_number(&b.id) < id_number(&c.id));
}

#[test]
fn initialize_request_announces_the_client() {
    let mut client = Client::new(QuietProvider);
    let req = client.make_initialize_request();
    assert_eq!(req.method, "initialize");
    let text = encode_message(&JSONRPCMessage::Request(req));
    assert!(text.contains("\"protocolVersion\":\"2025-03-26\""));
    assert!(text.contains("\"name\":\"MCP Client\""));
    assert!(text.contains("\"roots\":{\"listChanged\":false}"));
}

#[test]
fn call_tool_request_carries_the_parameters() {
    let mut client = Client::new(QuietProvider);
    let req = client.make_call_tool_request(CallToolParams {
        name: "test_tool".to_string(),
        arguments: Some(vec![("msg".to_string(), JsonValue::Str("hi".to_string()))]),
    });
    assert_eq!(req.method, "tools/call");
    let text = to_json_text(&req.params.unwrap());
    assert_eq!(text, "{\"name\":\"test_tool\",\"arguments\":{\"msg\":\"hi\"}}");
}

#[test]
fn set_level_request_names_the_level() {
    let mut client = Client::new(QuietProvider);
    let req = client.make_set_level_request(LoggingLevel::Warning);
    assert_eq!(req.method, "logging/setLevel");
    assert_eq!(to_json_text(&req.params.unwrap()), "{\"level\":\"warning\"}");
}

#[test]
fn cancel_names_the_most_recent_request() {
    let mut client = Client::new(QuietProvider);
    let _ = client.make_call_tool_request(CallToolParams {
        name: "test_tool".to_string(),
        arguments: None,
    });
    let note = client.make_cancel_notification();
    assert_eq!(note.method, "notifications/cancelled");
    let text = to_json_text(&note.params.unwrap());
    assert_eq!(text, "{\"requestId\":1,\"reason\":\"client cancelled\"}");
}

#[test]
fn responses_are_correlated_once_per_take() {
    // two responses under one id: each take hands out exactly one, oldest
    // first, and the rest stay until drained
    let mut client = Client::new(QuietProvider);
    client
        .handle_message(JSONRPCMessage::Response(JSONRPCResponse::new(
            RequestId::Number(3),
            JsonValue::Str("first".to_string()),
        )))
        .unwrap();
    client
        .handle_message(JSONRPCMessage::Response(JSONRPCResponse::new(
            RequestId::Number(4),
            JsonValue::Str("other".to_string()),
        )))
        .unwrap();
    client
        .handle_message(JSONRPCMessage::Response(JSONRPCResponse::new(
            RequestId::Number(3),
            JsonValue::Str("second".to_string()),
        )))
        .unwrap();
    let taken = client.take_response(&RequestId::Number(3)).expect("a match is cached");
    match taken {
        JSONRPCMessage::Response(resp) => assert_eq!(to_json_text(&resp.result), "\"first\""),
        _ => panic!("a response was cached"),
    }
    assert_eq!(client.cached.len(), 2, "the other answers stay cached");
    let again = client.take_response(&RequestId::Number(3)).expect("the second fragment stays");
    match again {
        JSONRPCMessage::Response(resp) => assert_eq!(to_json_text(&resp.result), "\"second\""),
        _ => panic!("a response was cached"),
    }
    assert!(client.take_response(&RequestId::Number(3)).is_none());
    assert_eq!(client.cached.len(), 1);
}

#[test]
fn errors_correlate_like_responses() {
    let mut client = Client::new(QuietProvider);
    client
        .handle_message(JSONRPCMessage::Error(JSONRPCError::new(
            RequestId::String("k".to_string()),
            JSONRPCErrorObject { code: -32601, message: "nope".to_string(), data: None },
        )))
        .unwrap();
    assert!(client.take_response(&RequestId::String("other".to_string())).is_none());
    let taken = client.take_response(&RequestId::String("k".to_string()));
    assert!(taken.is_some());
    assert!(client.cached.is_empty());
}

#[test]
fn try_recieve_pops_the_oldest() {
    let mut client = Client::new(QuietProvider);
    assert!(client.try_recieve().is_err());
    client
        .handle_message(JSONRPCMessage::Response(JSONRPCResponse::new(
            RequestId::Number(1),
            JsonValue::Null,
        )))
        .unwrap();
    client
        .handle_message(JSONRPCMessage::Response(JSONRPCResponse::new(
            RequestId::Number(2),
            JsonValue::Null,
        )))
        .unwrap();
    match client.try_recieve().unwrap() {
        JSONRPCMessage::Response(resp) => assert_eq!(id_number(&resp.id), 1),
        _ => panic!("a response was cached"),
    }
}

#[test]
fn inbound_requests_reach_the_provider_without_caching() {
    let mut client = Client::new(QuietProvider);
    client
        .handle_message(JSONRPCMessage::Request(mcp_core::rpc::JSONRPCRequest::new(
            RequestId::Number(1),
            "ping".to_string(),
            None,
        )))
        .unwrap();
    assert!(client.cached.is_empty());
}

#[test]
fn levels_read_back_from_their_names() {
    assert!(LoggingLevel::from("warning") == LoggingLevel::Warning);
    assert!(LoggingLevel::from("WARN") == LoggingLevel::Warning);
    assert!(LoggingLevel::from("debug") == LoggingLevel::Debug);
    assert!(LoggingLevel::from("emergency") == LoggingLevel::Emergency);
    assert!(LoggingLevel::from("gibberish") == LoggingLevel::Info);
    assert_eq!(LoggingLevel::Notice.to_string(), "notice");
    assert!(LoggingLevel::Error.at_least(&LoggingLevel::Warning));
    assert!(!LoggingLevel::Info.at_least(&LoggingLevel::Warning));
}

#[test]
fn resource_requests_carry_their_uri() {
    // a read request's parameters survive onto the wire
    let req = build_client_request(
        RequestId::Number(1),
        ClientRequest::ReadResource(ReadResourceRequest {
            method: "resources/read".to_string(),
            params: ReadResourceParams { uri: "file:///a.txt".to_string() },
        }),
    );
    let text = encode_message(&JSONRPCMessage::Request(req));
    assert!(text.contains("\"params\":{\"uri\":\"file:///a.txt\"}"));
}

#[test]
fn progress_notifications_carry_their_parameters() {
    let note = build_server_notification(ServerNotification::ProgressNotification(
        ProgressNotification {
            method: "notifications/progress".to_string(),
            params: ProgressParams {
                progress_token: ProgressToken::Number(7),
                progress: 3,
                total: Some(10),
            },
        },
    ));
    let text = to_json_text(&note.params.unwrap());
    assert_eq!(text, "{\"progressToken\":7,\"progress\":3,\"total\":10}");
}
