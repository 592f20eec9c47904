//! From typed schema requests to JSON-RPC envelopes.
//!
//! Each builder takes the typed request, serializes its parameters to a
//! JSON value, and wraps them in an envelope that carries the request's
//! method name.

use vstd::prelude::*;

use crate::json::JsonVal;
use crate::rpc::{
    version_seq, ErrObjVal, ErrVal, IdVal, JSONRPCError, JSONRPCNotification, JSONRPCRequest,
    NoteVal, ReqVal, RequestId,
};
use crate::schema::{ClientNotification, ClientRequest, ServerNotification, ServerRequest};
use crate::wire::{
    call_tool_params_jv, cancelled_params_jv, complete_params_jv, get_prompt_params_jv,
    initialize_params_jv, logging_message_params_jv, paginated_params_jv, progress_params_jv,
    read_resource_params_jv, resource_updated_params_jv, set_level_params_jv,
    subscribe_params_jv, unsubscribe_params_jv,
};
use crate::json::JsonValue;

verus! {

/// The parameter value a client request carries on the wire, if any:
/// only the probe and the shutdown request carry none.
pub open spec fn client_request_params_jv(param: ClientRequest) -> Option<JsonVal> {
    match param {
        ClientRequest::Initialize(req) => Some(initialize_params_jv(req.params)),
        ClientRequest::Ping(_) => None,
        ClientRequest::ListTools(req) => match req.params {
            Some(p) => Some(paginated_params_jv(p)),
            None => None,
        },
        ClientRequest::CallTool(req) => Some(call_tool_params_jv(req.params)),
        ClientRequest::SetLevel(req) => Some(set_level_params_jv(req.params)),
        ClientRequest::ListResources(req) => match req.params {
            Some(p) => Some(paginated_params_jv(p)),
            None => None,
        },
        ClientRequest::ListResourceTemplates(req) => match req.params {
            Some(p) => Some(paginated_params_jv(p)),
            None => None,
        },
        ClientRequest::ListPrompts(req) => match req.params {
            Some(p) => Some(paginated_params_jv(p)),
            None => None,
        },
        ClientRequest::ReadResource(req) => Some(read_resource_params_jv(req.params)),
        ClientRequest::Subscribe(req) => Some(subscribe_params_jv(req.params)),
        ClientRequest::Unsubscribe(req) => Some(unsubscribe_params_jv(req.params)),
        ClientRequest::GetPrompt(req) => Some(get_prompt_params_jv(req.params)),
        ClientRequest::Complete(req) => Some(complete_params_jv(req.params)),
        ClientRequest::Shutdown(_) => None,
    }
}

/// The method name a client request carries.
pub open spec fn client_request_method(param: ClientRequest) -> Seq<char> {
    match param {
        ClientRequest::Initialize(req) => req.method@,
        ClientRequest::Ping(req) => req.method@,
        ClientRequest::ListResources(req) => req.method@,
        ClientRequest::ListResourceTemplates(req) => req.method@,
        ClientRequest::ReadResource(req) => req.method@,
        ClientRequest::Subscribe(req) => req.method@,
        ClientRequest::Unsubscribe(req) => req.method@,
        ClientRequest::ListPrompts(req) => req.method@,
        ClientRequest::GetPrompt(req) => req.method@,
        ClientRequest::ListTools(req) => req.method@,
        ClientRequest::CallTool(req) => req.method@,
        ClientRequest::SetLevel(req) => req.method@,
        ClientRequest::Complete(req) => req.method@,
        ClientRequest::Shutdown(req) => req.method@,
    }
}

/// Wraps a client request in a JSON-RPC request envelope.
pub fn build_client_request(id: RequestId, param: ClientRequest) -> (r: JSONRPCRequest)
    ensures
        r@ == (ReqVal {
            jsonrpc: version_seq(),
            id: id@,
            method: client_request_method(param),
            params: client_request_params_jv(param),
        }),
{
    match param {
        ClientRequest::Initialize(req) => JSONRPCRequest::new(
            id,
            req.method,
            Some(req.params.to_json()),
        ),
        ClientRequest::Ping(req) => JSONRPCRequest::new(id, req.method, None),
        ClientRequest::ListResources(req) => {
            let params = match &req.params {
                Some(p) => Some(p.to_json()),
                None => None,
            };
            JSONRPCRequest::new(id, req.method, params)
        },
        ClientRequest::ListResourceTemplates(req) => {
            let params = match &req.params {
                Some(p) => Some(p.to_json()),
                None => None,
            };
            JSONRPCRequest::new(id, req.method, params)
        },
        ClientRequest::ReadResource(req) => JSONRPCRequest::new(
            id,
            req.method,
            Some(req.params.to_json()),
        ),
        ClientRequest::Subscribe(req) => JSONRPCRequest::new(
            id,
            req.method,
            Some(req.params.to_json()),
        ),
        ClientRequest::Unsubscribe(req) => JSONRPCRequest::new(
            id,
            req.method,
            Some(req.params.to_json()),
        ),
        ClientRequest::ListPrompts(req) => {
            let params = match &req.params {
                Some(p) => Some(p.to_json()),
                None => None,
            };
            JSONRPCRequest::new(id, req.method, params)
        },
        ClientRequest::GetPrompt(req) => JSONRPCRequest::new(
            id,
            req.method,
            Some(req.params.to_json()),
        ),
        ClientRequest::ListTools(req) => {
            let params = match &req.params {
                Some(p) => Some(p.to_json()),
                None => None,
            };
            JSONRPCRequest::new(id, req.method, params)
        },
        ClientRequest::CallTool(req) => JSONRPCRequest::new(
            id,
            req.method,
            Some(req.params.to_json()),
        ),
        ClientRequest::SetLevel(req) => JSONRPCRequest::new(
            id,
            req.method,
            Some(req.params.to_json()),
        ),
        ClientRequest::Complete(req) => JSONRPCRequest::new(
            id,
            req.method,
            Some(req.params.to_json()),
        ),
        ClientRequest::Shutdown(req) => JSONRPCRequest::new(id, req.method, None),
    }
}

/// The parameter value a client notification carries on the wire, if
/// any: the roots-changed notice carries none.
pub open spec fn client_notification_params_jv(param: ClientNotification) -> Option<JsonVal> {
    match param {
        ClientNotification::Cancelled(n) => Some(cancelled_params_jv(n.params)),
        ClientNotification::Initialized(_) => Some(JsonVal::Obj(Seq::empty())),
        ClientNotification::ProgressNotification(n) => Some(progress_params_jv(n.params)),
        ClientNotification::RootsListChanged(_) => None,
    }
}

/// The method name a client notification carries.
pub open spec fn client_notification_method(param: ClientNotification) -> Seq<char> {
    match param {
        ClientNotification::Cancelled(n) => n.method@,
        ClientNotification::Initialized(n) => n.method@,
        ClientNotification::ProgressNotification(n) => n.method@,
        ClientNotification::RootsListChanged(n) => n.method@,
    }
}

/// Wraps a client notification in a JSON-RPC notification envelope. The
/// initialized notice carries an empty object.
pub fn build_client_notification(param: ClientNotification) -> (r: JSONRPCNotification)
    ensures
        r@ == (NoteVal {
            jsonrpc: version_seq(),
            method: client_notification_method(param),
            params: client_notification_params_jv(param),
        }),
{
    match param {
        ClientNotification::Cancelled(n) => JSONRPCNotification::new(
            n.method,
            Some(n.params.to_json()),
        ),
        ClientNotification::Initialized(n) => {
            let empty: Vec<(String, JsonValue)> = Vec::new();
            proof {
                assert(JsonValue::Obj(empty)@ == JsonVal::Obj(crate::json::obj_view(empty@)));
                assert(crate::json::obj_view(empty@) =~= Seq::<(Seq<char>, JsonVal)>::empty());
            }
            JSONRPCNotification::new(n.method, Some(JsonValue::Obj(empty)))
        },
        ClientNotification::ProgressNotification(n) => JSONRPCNotification::new(
            n.method,
            Some(n.params.to_json()),
        ),
        ClientNotification::RootsListChanged(n) => JSONRPCNotification::new(n.method, None),
    }
}

/// The method name a server request carries.
pub open spec fn server_request_method(param: ServerRequest) -> Seq<char> {
    match param {
        ServerRequest::Ping(req) => req.method@,
        ServerRequest::CreateMessageRequest(req) => req.method@,
        ServerRequest::ListRootsRequest(req) => req.method@,
    }
}

/// Wraps a server request in a JSON-RPC request envelope. The sampling
/// request's parameters stand outside the verified core and carry none
/// here.
pub fn build_server_request(id: RequestId, param: ServerRequest) -> (r: JSONRPCRequest)
    ensures
        r@ == (ReqVal {
            jsonrpc: version_seq(),
            id: id@,
            method: server_request_method(param),
            params: None,
        }),
{
    match param {
        ServerRequest::Ping(req) => JSONRPCRequest::new(id, req.method, None),
        ServerRequest::CreateMessageRequest(req) => JSONRPCRequest::new(id, req.method, None),
        ServerRequest::ListRootsRequest(req) => JSONRPCRequest::new(id, req.method, None),
    }
}

/// The parameter value a server notification carries on the wire, if any:
/// the list-changed notices carry none.
pub open spec fn server_notification_params_jv(param: ServerNotification) -> Option<JsonVal> {
    match param {
        ServerNotification::CancelledNotification(n) => Some(cancelled_params_jv(n.params)),
        ServerNotification::ProgressNotification(n) => Some(progress_params_jv(n.params)),
        ServerNotification::ResourceUpdatedNotification(n) => Some(
            resource_updated_params_jv(n.params),
        ),
        ServerNotification::LoggingMessageNotification(n) => Some(
            logging_message_params_jv(n.params),
        ),
        _ => None,
    }
}

/// The method name a server notification carries.
pub open spec fn server_notification_method(param: ServerNotification) -> Seq<char> {
    match param {
        ServerNotification::CancelledNotification(n) => n.method@,
        ServerNotification::ProgressNotification(n) => n.method@,
        ServerNotification::ResourceListChangedNotification(n) => n.method@,
        ServerNotification::ResourceUpdatedNotification(n) => n.method@,
        ServerNotification::PromptListChangedNotification(n) => n.method@,
        ServerNotification::ToolListChangedNotification(n) => n.method@,
        ServerNotification::LoggingMessageNotification(n) => n.method@,
    }
}

/// Wraps a server notification in a JSON-RPC notification envelope.
pub fn build_server_notification(param: ServerNotification) -> (r: JSONRPCNotification)
    ensures
        r@ == (NoteVal {
            jsonrpc: version_seq(),
            method: server_notification_method(param),
            params: server_notification_params_jv(param),
        }),
{
    match param {
        ServerNotification::CancelledNotification(n) => JSONRPCNotification::new(
            n.method,
            Some(n.params.to_json()),
        ),
        ServerNotification::ProgressNotification(n) => JSONRPCNotification::new(
            n.method,
            Some(n.params.to_json()),
        ),
        ServerNotification::ResourceListChangedNotification(n) => JSONRPCNotification::new(
            n.method,
            None,
        ),
        ServerNotification::ResourceUpdatedNotification(n) => JSONRPCNotification::new(
            n.method,
            Some(n.params.to_json()),
        ),
        ServerNotification::PromptListChangedNotification(n) => JSONRPCNotification::new(
            n.method,
            None,
        ),
        ServerNotification::ToolListChangedNotification(n) => JSONRPCNotification::new(
            n.method,
            None,
        ),
        ServerNotification::LoggingMessageNotification(n) => JSONRPCNotification::new(
            n.method,
            Some(n.params.to_json()),
        ),
    }
}

/// Builds a JSON-RPC error response from its code, message and data.
pub fn build_server_error(id: RequestId, code: i32, message: String, data: Option<JsonValue>) -> (r:
    JSONRPCError)
    ensures
        r@ == (ErrVal {
            jsonrpc: version_seq(),
            id: id@,
            error: ErrObjVal {
                code,
                message: message@,
                data: crate::rpc::opt_view(data),
            },
        }),
{
    JSONRPCError::new_with_details(id, code, message, data)
}

} // verus!
